//! What holds of every run of a scan.
use vstd::prelude::*;

use crate::display::{Display, DisplayView};
use crate::error::Error;
use crate::hardware::{Op, Reply, Step};
use crate::panel::{
    frame_end_actions, frame_start_actions, output_row_actions, set_buffer_actions,
    set_output_enabled_actions, skip_actions, Action,
};
use crate::scan::{
    frames_from, needs_link, row_write_actions, waiting_for, Frame, ScanView, Waiting,
};
use crate::waveform::BYTES_PER_LINE;

verus! {

/// The scan and the display after the first `n` of `replies`.
pub open spec fn scan_reached(s: ScanView, d: DisplayView, replies: Seq<Reply>, n: int) -> (
    ScanView,
    DisplayView,
)
    decreases n,
{
    if n <= 0 {
        (s, d)
    } else {
        let (s1, d1) = scan_reached(s, d, replies, n - 1);
        let (s2, d2, _) = s1.next(d1, replies[n - 1]);
        (s2, d2)
    }
}

/// What a scan hands out for reply `n`.
pub open spec fn scan_handed(s: ScanView, d: DisplayView, replies: Seq<Reply>, n: int) -> Step<
    Seq<u8>,
    Result<(), Error>,
> {
    let (s1, d1) = scan_reached(s, d, replies, n);
    s1.next(d1, replies[n]).2
}

/// A scan ends whatever the replies: each piece of work shortens its plan.
pub proof fn law_scan_ends(s: ScanView, d: DisplayView, reply: Reply)
    ensures
        s.next(d, reply).2 is Finished || s.next(d, reply).0.plan.len() < s.plan.len(),
{
}

/// Whatever the replies, a scan changes no pixel and no mark of the framebuffer until it is done;
/// then an image refresh leaves the framebuffer white and clean, and solid passes leave it as it
/// was. A scan that failed leaves it as it was.
pub proof fn law_scan_keeps_framebuffer(
    frames: Seq<Frame>,
    blanks: bool,
    d: DisplayView,
    replies: Seq<Reply>,
    n: int,
)
    requires
        0 <= n <= replies.len(),
    ensures
        ({
            let (s1, d1) = scan_reached(ScanView::starting(frames, blanks), d, replies, n);
            let kept = if blanks && s1.ended == Some(Ok::<(), Error>(())) {
                d.blank()
            } else {
                d
            };
            &&& s1.blanks == blanks
            &&& d1 == (DisplayView { port: d1.port, linked: d1.linked, ..kept })
        }),
    decreases n,
{
    if n > 0 {
        law_scan_keeps_framebuffer(frames, blanks, d, replies, n - 1);
    }
}

/// The value of the control port before action `n`, where it held `port` before the first.
pub open spec fn port_before(plan: Seq<Action<Seq<u8>>>, port: u8, n: int) -> u8
    decreases n,
{
    if n <= 0 {
        port
    } else {
        plan[n - 1].port_after(port_before(plan, port, n - 1))
    }
}

/// What the transfer buffer holds before action `n`, where it held `buffer` before the first.
pub open spec fn buffer_before(plan: Seq<Action<Seq<u8>>>, buffer: Seq<u8>, n: int) -> Seq<u8>
    decreases n,
{
    if n <= 0 {
        buffer
    } else {
        match plan[n - 1] {
            Action::Do(Op::Load { bytes }) => bytes,
            _ => buffer_before(plan, buffer, n - 1),
        }
    }
}

/// Whether a transfer holds the bus before action `n`: from its start to the end of the pulse that
/// runs beside it.
spec fn busy_before(plan: Seq<Action<Seq<u8>>>, n: int) -> bool
    decreases n,
{
    if n <= 0 {
        false
    } else {
        match plan[n - 1] {
            Action::Do(Op::Send) => true,
            Action::Do(Op::FinishPulse) => false,
            _ => busy_before(plan, n - 1),
        }
    }
}

/// The bus is free whenever an action takes it or a pulse starts, and at the end. A transfer is
/// started, ended, and followed by the end of its pulse, in this order.
spec fn orderly(plan: Seq<Action<Seq<u8>>>) -> bool {
    &&& forall|n: int| 0 <= n < plan.len() ==> orderly_at(plan, n)
    &&& !busy_before(plan, plan.len() as int)
}

spec fn orderly_at(plan: Seq<Action<Seq<u8>>>, n: int) -> bool {
    let finish_send = Action::<Seq<u8>>::Do(Op::FinishSend);
    let finish_pulse = Action::<Seq<u8>>::Do(Op::FinishPulse);
    &&& needs_link(plan[n]) || waiting_for(plan[n]) is Pulse ==> !busy_before(plan, n)
    &&& plan[n] == finish_send ==> n > 0 && plan[n - 1] == Action::<Seq<u8>>::Do(Op::Send) && n + 1
        < plan.len() && plan[n + 1] == finish_pulse
    &&& plan[n] == finish_pulse && busy_before(plan, n) ==> n > 0 && plan[n - 1] == finish_send
}

proof fn lemma_busy_prefix(a: Seq<Action<Seq<u8>>>, b: Seq<Action<Seq<u8>>>, n: int)
    requires
        0 <= n <= a.len(),
    ensures
        busy_before(a + b, n) == busy_before(a, n),
    decreases n,
{
    if n > 0 {
        lemma_busy_prefix(a, b, n - 1);
    }
}

proof fn lemma_busy_suffix(a: Seq<Action<Seq<u8>>>, b: Seq<Action<Seq<u8>>>, m: int)
    requires
        0 <= m <= b.len(),
        !busy_before(a, a.len() as int),
    ensures
        busy_before(a + b, a.len() + m) == busy_before(b, m),
    decreases m,
{
    if m > 0 {
        lemma_busy_suffix(a, b, m - 1);
        assert((a + b)[a.len() + m - 1] == b[m - 1]);
    } else {
        lemma_busy_prefix(a, b, a.len() as int);
    }
}

proof fn lemma_orderly_concat(a: Seq<Action<Seq<u8>>>, b: Seq<Action<Seq<u8>>>)
    requires
        orderly(a),
        orderly(b),
    ensures
        orderly(a + b),
{
    let c = a + b;
    assert forall|n: int| 0 <= n < c.len() implies orderly_at(c, n) by {
        if n < a.len() {
            lemma_busy_prefix(a, b, n);
            assert(orderly_at(a, n));
        } else {
            lemma_busy_suffix(a, b, n - a.len());
            assert(orderly_at(b, n - a.len()));
        }
    }
    lemma_busy_suffix(a, b, b.len() as int);
}

/// Every block of actions that a frame is made of leaves the bus free.
proof fn lemma_orderly_blocks(data: Seq<u8>, time: u16, was: bool, enabled: bool)
    ensures
        orderly(frame_start_actions()),
        orderly(set_buffer_actions(data)),
        orderly(output_row_actions(time)),
        orderly(skip_actions()),
        orderly(set_output_enabled_actions(was, enabled)),
        orderly(frame_end_actions()),
{
    reveal_with_fuel(busy_before, 11);
}

proof fn lemma_orderly_row(frame: Frame, y: int, run: int)
    ensures
        orderly(frame.row_actions(y, run)),
        orderly(row_write_actions(run, frame.time)),
{
    let zeros = Seq::new(BYTES_PER_LINE as nat, |i: int| 0u8);
    lemma_orderly_blocks(zeros, frame.time, run == 0, true);
    lemma_orderly_blocks(zeros, 10, true, false);
    lemma_orderly_concat(
        set_output_enabled_actions(run == 0, true),
        output_row_actions(frame.time),
    );
    if frame.driven[y] {
        match frame.loads[y] {
            Some(data) => {
                lemma_orderly_blocks(data, frame.time, true, true);
                lemma_orderly_concat(
                    set_buffer_actions(data),
                    row_write_actions(run, frame.time),
                );
            },
            None => {
                assert(seq![] + row_write_actions(run, frame.time) =~= row_write_actions(
                    run,
                    frame.time,
                ));
            },
        }
    } else if run == 0 {
        lemma_orderly_concat(set_buffer_actions(zeros), output_row_actions(frame.time));
        lemma_orderly_concat(
            set_buffer_actions(zeros) + output_row_actions(frame.time),
            set_output_enabled_actions(true, false),
        );
    }
}

proof fn lemma_orderly_closing(frame: Frame, run: int)
    ensures
        orderly(frame.closing_actions(run)),
{
    lemma_orderly_row(frame, 0, run);
    lemma_orderly_blocks(seq![], 0, true, true);
    let last: Seq<Action<Seq<u8>>> = if frame.closes || run == 0 {
        row_write_actions(run, frame.time)
    } else {
        seq![]
    };
    let pause: Seq<Action<Seq<u8>>> = match frame.pause {
        Some(millis) => seq![Action::Do(Op::DelayMillis { millis })],
        None => seq![],
    };
    reveal_with_fuel(busy_before, 2);
    assert(orderly(last));
    assert(orderly(pause));
    lemma_orderly_concat(last, frame_end_actions());
    lemma_orderly_concat(last + frame_end_actions(), pause);
}

proof fn lemma_orderly_from(frame: Frame, y: int, run: int)
    ensures
        orderly(frame.actions_from(y, run)),
    decreases Display::HEIGHT - y,
{
    if y < Display::HEIGHT {
        let next = frame.run_after(y, run);
        lemma_orderly_row(frame, y, run);
        lemma_orderly_from(frame, y + 1, next);
        lemma_orderly_concat(frame.row_actions(y, run), frame.actions_from(y + 1, next));
    } else {
        lemma_orderly_closing(frame, run);
    }
}

proof fn lemma_orderly_frames(frames: Seq<Frame>, n: int)
    ensures
        orderly(frames_from(frames, n)),
    decreases frames.len() - n,
{
    if 0 <= n < frames.len() {
        lemma_orderly_blocks(seq![], 0, true, true);
        lemma_orderly_from(frames[n], 0, 0);
        lemma_orderly_concat(frame_start_actions(), frames[n].actions_from(0, 0));
        lemma_orderly_frames(frames, n + 1);
        lemma_orderly_concat(frames[n].actions(), frames_from(frames, n + 1));
    }
}

/// Where a scan stands that met no failure.
spec fn scan_stands(plan: Seq<Action<Seq<u8>>>, blanks: bool, d: DisplayView, n: int) -> (
    ScanView,
    DisplayView,
) {
    let carrying = if n > 0 && plan[n - 1] == Action::<Seq<u8>>::Do(Op::FinishPulse) {
        busy_before(plan, n - 1)
    } else {
        busy_before(plan, n)
    };
    (
        ScanView {
            plan: plan.skip(n),
            waiting: if n > 0 {
                waiting_for(plan[n - 1])
            } else {
                Waiting::Nothing
            },
            carrying,
            held: None,
            ended: None,
            blanks,
        },
        DisplayView { port: port_before(plan, d.port, n), linked: !carrying, ..d },
    )
}

proof fn lemma_scan_stands(
    frames: Seq<Frame>,
    blanks: bool,
    d: DisplayView,
    replies: Seq<Reply>,
    n: int,
)
    requires
        d.linked,
        0 <= n <= frames_from(frames, 0).len(),
        forall|i: int| 0 <= i < n ==> (#[trigger] replies[i]).error() is None,
    ensures
        scan_reached(ScanView::starting(frames, blanks), d, replies, n) == scan_stands(
            frames_from(frames, 0),
            blanks,
            d,
            n,
        ),
    decreases n,
{
    let plan = frames_from(frames, 0);
    let start = ScanView::starting(frames, blanks);
    if n == 0 {
        assert(plan.skip(0) =~= plan);
    } else {
        lemma_scan_stands(frames, blanks, d, replies, n - 1);
        lemma_orderly_frames(frames, 0);
        let (s1, d1) = scan_reached(start, d, replies, n - 1);
        let reply = replies[n - 1];
        assert(s1.failure(reply) is None);
        let settled = s1.settled(reply);
        assert(settled.plan[0] == plan[n - 1]);
        assert(settled.plan.drop_first() =~= plan.skip(n));
        assert(s1.settled_display(d1).linked == !busy_before(plan, n - 1));
        assert(orderly_at(plan, n - 1));
    }
}

/// A scan whose replies report no failure, on a display that has its bus, hands out exactly its
/// plan, each change of the control port as a write of the new value, and succeeds. The display
/// then has its bus, and its framebuffer is white and clean after an image refresh and as it was
/// after solid passes.
pub proof fn law_scan_completes(
    frames: Seq<Frame>,
    blanks: bool,
    d: DisplayView,
    replies: Seq<Reply>,
)
    requires
        d.linked,
        replies.len() > frames_from(frames, 0).len(),
        forall|i: int|
            0 <= i <= frames_from(frames, 0).len() ==> (#[trigger] replies[i]).error() is None,
    ensures
        ({
            let plan = frames_from(frames, 0);
            let start = ScanView::starting(frames, blanks);
            let end = plan.len() as int;
            &&& forall|n: int|
                0 <= n < end ==> #[trigger] scan_handed(start, d, replies, n) == Step::<
                    Seq<u8>,
                    Result<(), Error>,
                >::Perform(plan[n].resolve(port_before(plan, d.port, n)))
            &&& scan_handed(start, d, replies, end) == Step::<Seq<u8>, Result<(), Error>>::Finished(
                Ok(()),
            )
            &&& scan_reached(start, d, replies, end + 1).1 == (DisplayView {
                port: port_before(plan, d.port, end),
                ..if blanks {
                    d.blank()
                } else {
                    d
                }
            })
        }),
{
    let plan = frames_from(frames, 0);
    let start = ScanView::starting(frames, blanks);
    let end = plan.len() as int;
    lemma_orderly_frames(frames, 0);
    assert forall|n: int| 0 <= n < end implies #[trigger] scan_handed(start, d, replies, n)
        == Step::<Seq<u8>, Result<(), Error>>::Perform(
        plan[n].resolve(port_before(plan, d.port, n)),
    ) by {
        lemma_scan_stands(frames, blanks, d, replies, n);
        let (s1, d1) = scan_reached(start, d, replies, n);
        let reply = replies[n];
        assert(s1.failure(reply) is None);
        assert(s1.settled(reply).plan[0] == plan[n]);
        assert(s1.settled_display(d1).linked == !busy_before(plan, n));
        assert(orderly_at(plan, n));
    }
    lemma_scan_stands(frames, blanks, d, replies, end);
    let (s1, d1) = scan_reached(start, d, replies, end);
    assert(s1.failure(replies[end]) is None);
    assert(s1.settled_display(d1).linked);
    assert(scan_reached(start, d, replies, end + 1) == (
        s1.next(d1, replies[end]).0,
        s1.next(d1, replies[end]).1,
    ));
}

/// The first failure ends a scan: that of a pulse or of a transfer that does not start at once,
/// that of a running transfer once its pulse has been seen through, unless the pulse fails too,
/// whose failure then comes first. Replies to other work make no difference. Only a transfer that
/// was running takes the bus with it.
pub proof fn law_scan_fails(
    frames: Seq<Frame>,
    blanks: bool,
    d: DisplayView,
    replies: Seq<Reply>,
    n: int,
    error: Error,
)
    requires
        d.linked,
        0 < n <= frames_from(frames, 0).len(),
        n + 1 < replies.len(),
        forall|i: int| 0 <= i < n ==> (#[trigger] replies[i]).error() is None,
        replies[n].error() == Some(error),
    ensures
        ({
            let plan = frames_from(frames, 0);
            let start = ScanView::starting(frames, blanks);
            let failed = Step::<Seq<u8>, Result<(), Error>>::Finished(Err(error));
            let after = scan_reached(start, d, replies, n + 1).1;
            let stopped = DisplayView {
                port: port_before(plan, d.port, n),
                linked: after.linked,
                ..d
            };
            match plan[n - 1] {
                Action::Do(Op::Pulse { .. }) | Action::Do(Op::Send) => {
                    &&& scan_handed(start, d, replies, n) == failed
                    &&& after.linked
                    &&& after == stopped
                },
                Action::Do(Op::FinishPulse) => {
                    &&& scan_handed(start, d, replies, n) == failed
                    &&& after.linked == !(n > 1 && plan[n - 2] == Action::<Seq<u8>>::Do(
                        Op::FinishSend,
                    ))
                    &&& after == stopped
                },
                Action::Do(Op::FinishSend) => {
                    &&& plan[n] == Action::<Seq<u8>>::Do(Op::FinishPulse)
                    &&& scan_handed(start, d, replies, n) == Step::<
                        Seq<u8>,
                        Result<(), Error>,
                    >::Perform(Op::FinishPulse)
                    &&& scan_handed(start, d, replies, n + 1) == match replies[n + 1].error() {
                        Some(later) => Step::<Seq<u8>, Result<(), Error>>::Finished(Err(later)),
                        None => failed,
                    }
                    &&& !scan_reached(start, d, replies, n + 2).1.linked
                },
                _ => scan_reached(start, d, replies, n + 1) == scan_reached(
                    start,
                    d,
                    replies.update(n, Reply::Done),
                    n + 1,
                ),
            }
        }),
{
    let plan = frames_from(frames, 0);
    let start = ScanView::starting(frames, blanks);
    lemma_scan_stands(frames, blanks, d, replies, n);
    lemma_orderly_frames(frames, 0);
    let (s1, d1) = scan_reached(start, d, replies, n);
    assert(orderly_at(plan, n - 1));
    if n > 1 {
        assert(orderly_at(plan, n - 2));
        assert(busy_before(plan, n - 1) == match plan[n - 2] {
            Action::Do(Op::Send) => true,
            Action::Do(Op::FinishPulse) => false,
            _ => busy_before(plan, n - 2),
        });
    }
    if waiting_for(plan[n - 1]) is SendEnd {
        assert(plan[n - 1] == Action::<Seq<u8>>::Do(Op::FinishSend));
        assert(plan[n - 1 + 1] == Action::<Seq<u8>>::Do(Op::FinishPulse));
        assert(s1.settled(replies[n]).plan[0] == plan[n]);
        let (s2, d2) = scan_reached(start, d, replies, n + 1);
        assert(s2.waiting is PulseEnd);
        assert(s2.held == Some(error));
    }
    if waiting_for(plan[n - 1]) is Nothing {
        let other = replies.update(n, Reply::Done);
        assert forall|i: int| 0 <= i < n implies (#[trigger] other[i]).error() is None by {
            assert(replies[i].error() is None);
        }
        lemma_scan_stands(frames, blanks, d, other, n);
    }
}

/// Without the bus to the panel, a scan of any frames starts the first one and then fails.
pub proof fn law_unlinked_scan_fails(
    frames: Seq<Frame>,
    blanks: bool,
    d: DisplayView,
    replies: Seq<Reply>,
)
    requires
        !d.linked,
        frames.len() > 0,
        frames[0].driven[0] ==> frames[0].loads[0] is Some,
        replies.len() > 10,
        forall|i: int| 0 <= i <= 10 ==> (#[trigger] replies[i]).error() is None,
    ensures
        scan_handed(ScanView::starting(frames, blanks), d, replies, 10) == Step::<
            Seq<u8>,
            Result<(), Error>,
        >::Finished(Err(Error::Unknown)),
{
    let plan = frames_from(frames, 0);
    let start = ScanView::starting(frames, blanks);
    let first = frames[0];
    assert(plan == first.actions() + frames_from(frames, 1));
    assert(first.actions_from(0, 0) == first.row_actions(0, 0) + first.actions_from(
        1,
        first.run_after(0, 0),
    ));
    assert(forall|n: int| 0 <= n < 10 ==> #[trigger] plan[n] == frame_start_actions()[n]);
    assert(plan[10] == first.row_actions(0, 0)[0]);
    assert(needs_link(plan[10]));
    lemma_unlinked(frames, blanks, d, replies, 10);
    let (s1, d1) = scan_reached(start, d, replies, 10);
    assert(s1.settled(replies[10]).plan[0] == plan[10]);
}

proof fn lemma_unlinked(
    frames: Seq<Frame>,
    blanks: bool,
    d: DisplayView,
    replies: Seq<Reply>,
    n: int,
)
    requires
        !d.linked,
        0 <= n <= 10,
        frames_from(frames, 0).len() > 10,
        forall|i: int|
            0 <= i < 10 ==> #[trigger] frames_from(frames, 0)[i] == frame_start_actions()[i],
        forall|i: int| 0 <= i <= 10 ==> (#[trigger] replies[i]).error() is None,
    ensures
        ({
            let (s1, d1) = scan_reached(ScanView::starting(frames, blanks), d, replies, n);
            &&& s1 == (ScanView {
                plan: frames_from(frames, 0).skip(n),
                waiting: s1.waiting,
                ..ScanView::starting(frames, blanks)
            })
            &&& !(s1.waiting is SendEnd)
            &&& !d1.linked
        }),
    decreases n,
{
    let plan = frames_from(frames, 0);
    let start = ScanView::starting(frames, blanks);
    if n == 0 {
        assert(plan.skip(0) =~= plan);
    } else {
        lemma_unlinked(frames, blanks, d, replies, n - 1);
        let (s1, d1) = scan_reached(start, d, replies, n - 1);
        assert(s1.failure(replies[n - 1]) is None);
        assert(s1.settled(replies[n - 1]).plan[0] == plan[n - 1]);
        assert(plan[n - 1] == frame_start_actions()[n - 1]);
        assert(s1.settled(replies[n - 1]).plan.drop_first() =~= plan.skip(n));
    }
}

/// A scan that is over stays over, with the same result, and touches nothing.
pub proof fn law_scan_over(s: ScanView, d: DisplayView, reply: Reply, result: Result<(), Error>)
    requires
        s.ended == Some(result),
    ensures
        s.next(d, reply) == (s, d, Step::<Seq<u8>, Result<(), Error>>::Finished(result)),
{
}

/// In any state of a running scan: a failure that is waited for ends the scan with it, and gives
/// the bus back only to a transfer that did not start.
pub proof fn law_step_fails(s: ScanView, d: DisplayView, error: Error)
    requires
        s.ended is None,
        s.waiting is Pulse || s.waiting is Send || s.waiting is PulseEnd,
    ensures
        ({
            let (after, shown, step) = s.next(d, Reply::Failed(error));
            &&& step == Step::<Seq<u8>, Result<(), Error>>::Finished(Err(error))
            &&& after.ended == Some(Err::<(), Error>(error))
            &&& shown == (DisplayView { linked: d.linked || s.waiting is Send, ..d })
        }),
{
}

/// In any state of a running scan: without a failure, the next action of the plan is handed out,
/// unless it needs the bus and that is gone; with no action left the scan succeeds.
pub proof fn law_step_hands_out(s: ScanView, d: DisplayView, reply: Reply)
    requires
        s.ended is None,
        reply !is Failed || s.waiting is Nothing || s.waiting is SendEnd,
        s.held is None || !(s.waiting is PulseEnd),
    ensures
        ({
            let (after, shown, step) = s.next(d, reply);
            let bus = d.linked || (s.waiting is PulseEnd && s.carrying);
            let carrying = s.carrying && !(s.waiting is PulseEnd);
            &&& s.waiting is SendEnd ==> after.held == match reply {
                Reply::Failed(e) => Some(e),
                _ => None,
            }
            &&& !(s.waiting is SendEnd) ==> after.held == s.held
            &&& after.blanks == s.blanks
            &&& s.plan.len() == 0 ==> {
                &&& step == Step::<Seq<u8>, Result<(), Error>>::Finished(Ok(()))
                &&& after.ended == Some(Ok::<(), Error>(()))
                &&& shown == if s.blanks {
                    DisplayView { linked: bus, ..d }.blank()
                } else {
                    DisplayView { linked: bus, ..d }
                }
            }
            &&& s.plan.len() > 0 ==> after.plan == s.plan.drop_first()
            &&& s.plan.len() > 0 ==> match s.plan[0] {
                Action::Port { set, clear } => {
                    let port = (d.port & !clear) | set;
                    &&& step == Step::<Seq<u8>, Result<(), Error>>::Perform(
                        Op::Write { addr: 0x20, bytes: seq![0x03u8, port] },
                    )
                    &&& shown == (DisplayView { port, linked: bus, ..d })
                    &&& after.ended is None && after.waiting is Nothing && after.carrying == carrying
                },
                Action::Do(op) => if !bus && (op is Load || op is Send) {
                    &&& step == Step::<Seq<u8>, Result<(), Error>>::Finished(Err(Error::Unknown))
                    &&& after.ended == Some(Err::<(), Error>(Error::Unknown))
                    &&& shown == (DisplayView { linked: bus, ..d })
                } else {
                    &&& step == Step::<Seq<u8>, Result<(), Error>>::Perform(op)
                    &&& shown == (DisplayView { linked: bus && !(op is Send), ..d })
                    &&& after.ended is None
                    &&& after.carrying == (carrying || op is Send)
                    &&& after.waiting is Pulse <==> op is Pulse
                    &&& after.waiting is PulseEnd <==> op is FinishPulse
                    &&& after.waiting is Send <==> op is Send
                    &&& after.waiting is SendEnd <==> op is FinishSend
                },
            }
        }),
{
}

/// A transfer that failed ends the scan once its pulse has been seen through, and the bus is gone.
pub proof fn law_step_held(s: ScanView, d: DisplayView, reply: Reply, error: Error)
    requires
        s.ended is None,
        s.waiting is PulseEnd,
        s.held == Some(error),
        reply !is Failed,
    ensures
        s.next(d, reply).2 == Step::<Seq<u8>, Result<(), Error>>::Finished(Err(error)),
        s.next(d, reply).0.ended == Some(Err::<(), Error>(error)),
        s.next(d, reply).1 == d,
{
}

/// A scan begins with all its frames to do, nothing to wait for and nothing failed.
pub proof fn law_scan_begins(frames: Seq<Frame>, blanks: bool)
    ensures
        ({
            let s = ScanView::starting(frames, blanks);
            &&& s.plan == frames_from(frames, 0)
            &&& s.waiting is Nothing
            &&& !s.carrying
            &&& s.held is None
            &&& s.ended is None
            &&& s.blanks == blanks
        }),
{
}

} // verus!
