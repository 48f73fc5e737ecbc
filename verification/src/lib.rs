//! Core of a desktop calculator: an arbitrary-precision decimal numeral
//! builder and the value/operation handler that accumulates digits and
//! pending arithmetic operations. The handler never evaluates; its only
//! observable output is the display string of the latest value.

pub mod laws;
pub mod numeral;
pub mod value_handler;
