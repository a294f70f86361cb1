//! Offline capture handling: record layout constants, the binary log
//! record parser, and the time-binned table builder.

pub mod consts;
pub mod parse;
pub mod table;
