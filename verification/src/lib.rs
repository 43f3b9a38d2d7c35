//! Buffered driver for the ILI9341 / ILI9340C TFT LCD controller.
//!
//! Drawing goes into a caller-provided framebuffer of `BUFFER_SIZE` bytes
//! (one big-endian RGB565 word per pixel); `flush` moves the whole frame to
//! the panel through an [`Interface`].

pub mod command;
pub mod interface;
pub mod frame;
pub mod display;
pub mod init;
pub mod spi;

pub use command::Command;
pub use interface::{Error, Interface};
pub use frame::BUFFER_SIZE;
pub use display::{Ili9341, Orientation};
pub use init::{init_sequence, InitAction};
pub use spi::{SpiInterface, SpiStep};



