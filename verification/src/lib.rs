//! Verified core of a board-oriented embedded application framework: the
//! board table and command planning of its command line tool, the
//! configuration its build step derives from a target triple and a board
//! feature, the checks its entry-point attribute makes on an application's
//! `main`, and the bit-banged SPI protocol used to talk to a wireless chip.

pub mod text;
pub mod boards;
pub mod cli;
pub mod build_config;
pub mod spi;
pub mod entry;
pub mod laws;
pub mod device;

/// The executor that runs applications, for the code the `main` attribute
/// writes.
pub use embassy_executor;
/// The Cortex-M reset entry, for the code the `main` attribute writes.
pub use cortex_m_rt::entry;
