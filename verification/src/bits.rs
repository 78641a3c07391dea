//! Fields of bytes: the four 2-bit drive codes of a waveform byte and the 4-bit gray levels of a
//! framebuffer byte, as arithmetic on the byte's value.
use vstd::prelude::*;

verus! {

/// The 2-bit code in slot `i` of a byte. Slot 0 is bits 1:0, slot 3 is bits 7:6.
pub open spec fn slot(byte: u8, i: int) -> int {
    if i == 0 {
        byte as int % 4
    } else if i == 1 {
        (byte as int / 4) % 4
    } else if i == 2 {
        (byte as int / 16) % 4
    } else {
        byte as int / 64
    }
}

/// The byte whose slots 0 to 3 hold `a`, `b`, `c` and `d`.
pub open spec fn from_slots(a: int, b: int, c: int, d: int) -> u8 {
    (a + 4 * b + 16 * c + 64 * d) as u8
}

/// Gray level `i` of four levels packed in a 16-bit value. Level 0 is bits 3:0.
pub open spec fn nibble(value: int, i: int) -> int {
    if i == 0 {
        value % 16
    } else if i == 1 {
        (value / 16) % 16
    } else if i == 2 {
        (value / 256) % 16
    } else {
        (value / 4096) % 16
    }
}

/// A byte is made of its four slots.
pub proof fn lemma_byte_of_slots(byte: u8)
    ensures
        byte == from_slots(slot(byte, 0), slot(byte, 1), slot(byte, 2), slot(byte, 3)),
        forall|i: int| 0 <= i < 4 ==> 0 <= #[trigger] slot(byte, i) < 4,
{
}

/// The slots of a packed byte are what was packed.
pub proof fn lemma_from_slots(a: int, b: int, c: int, d: int)
    requires
        0 <= a < 4,
        0 <= b < 4,
        0 <= c < 4,
        0 <= d < 4,
    ensures
        slot(from_slots(a, b, c, d), 0) == a,
        slot(from_slots(a, b, c, d), 1) == b,
        slot(from_slots(a, b, c, d), 2) == c,
        slot(from_slots(a, b, c, d), 3) == d,
{
}

/// The mask that keeps every slot but slot `i`.
pub open spec fn keep_mask(i: int) -> u8 {
    if i == 0 {
        0xFC
    } else if i == 1 {
        0xF3
    } else if i == 2 {
        0xCF
    } else {
        0x3F
    }
}

/// Masking with [`keep_mask`] zeroes one slot and keeps the other three.
pub proof fn lemma_keep_mask(byte: u8, i: int)
    requires
        0 <= i < 4,
    ensures
        forall|j: int|
            0 <= j < 4 ==> #[trigger] slot(byte & keep_mask(i), j) == if j == i {
                0
            } else {
                slot(byte, j)
            },
{
    let b = byte;
    let r = b & keep_mask(i);
    if i == 0 {
        assert(r % 4 == 0 && (r / 4) % 4 == (b / 4) % 4 && (r / 16) % 4 == (b / 16) % 4 && r / 64
            == b / 64) by (bit_vector)
            requires
                r == b & 0xFC,
        ;
    } else if i == 1 {
        assert(r % 4 == b % 4 && (r / 4) % 4 == 0 && (r / 16) % 4 == (b / 16) % 4 && r / 64 == b
            / 64) by (bit_vector)
            requires
                r == b & 0xF3,
        ;
    } else if i == 2 {
        assert(r % 4 == b % 4 && (r / 4) % 4 == (b / 4) % 4 && (r / 16) % 4 == 0 && r / 64 == b
            / 64) by (bit_vector)
            requires
                r == b & 0xCF,
        ;
    } else {
        assert(r % 4 == b % 4 && (r / 4) % 4 == (b / 4) % 4 && (r / 16) % 4 == (b / 16) % 4 && r
            / 64 == 0) by (bit_vector)
            requires
                r == b & 0x3F,
        ;
    }
}

/// The mask that keeps every slot but slot `i`, see [`keep_mask`].
pub fn mask_without(i: usize) -> (mask: u8)
    requires
        i < 4,
    ensures
        mask == keep_mask(i as int),
{
    if i == 0 {
        0xFC
    } else if i == 1 {
        0xF3
    } else if i == 2 {
        0xCF
    } else {
        0x3F
    }
}

/// The byte with `code` in slot `i` and zero elsewhere, where `code` is 1 or 2.
pub open spec fn one_slot(i: int, code: int) -> u8 {
    from_slots(
        if i == 0 {
            code
        } else {
            0
        },
        if i == 1 {
            code
        } else {
            0
        },
        if i == 2 {
            code
        } else {
            0
        },
        if i == 3 {
            code
        } else {
            0
        },
    )
}

/// Cuts slot `i` out of `0b01010101` (code 1) or `0b10101010` (code 2).
pub fn slot_pattern(i: u8, lighten: bool) -> (mask: u8)
    requires
        i < 4,
    ensures
        mask == one_slot(
            i as int,
            if lighten {
                2
            } else {
                1
            },
        ),
{
    let all: u8 = if lighten {
        0b10101010
    } else {
        0b01010101
    };
    let shift: u8 = 2 * i;
    let mask: u8 = all & (0b00000011u8 << shift);
    assert(mask == (if all == 0xAA {
        2u8
    } else {
        1u8
    }) * (if i == 0 {
        1u8
    } else if i == 1 {
        4u8
    } else if i == 2 {
        16u8
    } else {
        64u8
    })) by (bit_vector)
        requires
            i < 4,
            shift == 2 * i,
            all == 0xAA || all == 0x55,
            mask == all & (0b00000011u8 << shift),
    ;
    mask
}

/// Or-ing a code into an empty slot fills that slot and keeps the others.
pub proof fn lemma_fill_slot(byte: u8, i: int, code: int)
    requires
        0 <= i < 4,
        code == 1 || code == 2,
        slot(byte, i) == 0,
    ensures
        forall|j: int|
            0 <= j < 4 ==> #[trigger] slot(byte | one_slot(i, code), j) == if j == i {
                code
            } else {
                slot(byte, j)
            },
{
    let b = byte;
    let m = one_slot(i, code);
    let r = b | m;
    let c = code as u8;
    if i == 0 {
        assert(r % 4 == c && (r / 4) % 4 == (b / 4) % 4 && (r / 16) % 4 == (b / 16) % 4 && r / 64
            == b / 64) by (bit_vector)
            requires
                c == 1 || c == 2,
                m == c,
                b % 4 == 0,
                r == b | m,
        ;
    } else if i == 1 {
        assert(r % 4 == b % 4 && (r / 4) % 4 == c && (r / 16) % 4 == (b / 16) % 4 && r / 64 == b
            / 64) by (bit_vector)
            requires
                c == 1 || c == 2,
                m == 4 * c,
                (b / 4) % 4 == 0,
                r == b | m,
        ;
    } else if i == 2 {
        assert(r % 4 == b % 4 && (r / 4) % 4 == (b / 4) % 4 && (r / 16) % 4 == c && r / 64 == b
            / 64) by (bit_vector)
            requires
                c == 1 || c == 2,
                m == 16 * c,
                (b / 16) % 4 == 0,
                r == b | m,
        ;
    } else {
        assert(r % 4 == b % 4 && (r / 4) % 4 == (b / 4) % 4 && (r / 16) % 4 == (b / 16) % 4 && r
            / 64 == c) by (bit_vector)
            requires
                c == 1 || c == 2,
                m == 64 * c,
                b / 64 == 0,
                r == b | m,
        ;
    }
}

/// Reverses the order of the four slots of a byte.
pub fn reverse_slots(b: u8) -> (r: u8)
    ensures
        forall|i: int| 0 <= i < 4 ==> #[trigger] slot(r, i) == slot(b, 3 - i),
{
    let r: u8 = ((b & 0x03) << 6) | ((b & 0x0C) << 2) | ((b & 0x30) >> 2) | ((b & 0xC0) >> 6);
    assert(r % 4 == b / 64 && (r / 4) % 4 == (b / 16) % 4 && (r / 16) % 4 == (b / 4) % 4 && r / 64
        == b % 4) by (bit_vector)
        requires
            r == ((b & 0x03) << 6) | ((b & 0x0C) << 2) | ((b & 0x30) >> 2) | ((b & 0xC0) >> 6),
    ;
    r
}

} // verus!
