//! A batch runner for abstract arithmetic programs on remote control
//! instruments: each program is compiled into an instrument-specific
//! instruction sequence, loaded and run over a two-step wire protocol, and
//! the batch's results are reported in a fixed order.

pub mod dispatch;
pub mod errors;
pub mod instruments;
pub mod programs;
pub mod report;
pub mod text;
pub mod wire;
