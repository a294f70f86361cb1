//! State and data handling of the viewer widgets; their rendering
//! lives with the graphical shell.

pub mod can_viewer;
pub mod log_parser;
pub mod viewer_list;
pub mod viewer_table;
