//! Driver of a 960x540 e-paper panel of sixteen gray levels (ED047TC1), its supply and its touch
//! controller.
//!
//! A [`Display`] holds a framebuffer of 4-bit gray levels and marks the rows that are drawn to.
//! [`Display::flush`] sends them to the panel. The library does no input or output: it hands out
//! the work for the hardware, see [`hardware`].
pub mod bits;
pub mod bus;
pub mod byte_laws;
pub mod display;
pub mod drive_laws;
pub mod error;
pub mod graphics;
pub mod gt911;
pub mod hardware;
pub mod image_laws;
pub mod laws;
pub mod panel;
pub mod power;
pub mod refresh;
pub mod scan;
pub mod waveform;

pub use crate::display::{Display, DisplayRotation, Rectangle};
pub use crate::error::Error;
pub use crate::gt911::Gt911;
pub use crate::waveform::DrawMode;
