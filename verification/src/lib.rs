//! Core of a CAN data-acquisition tool: the serial acquisition state
//! machine, the binary capture-log record parser, and the time-binned
//! CSV table builder, together with the data model shared by the
//! viewer widgets.

pub mod bootloader;
pub mod can;
pub mod config;
pub mod live_plot;
pub mod logs;
pub mod shortcuts;
pub mod text;
pub mod ui;
pub mod widgets;
