//! Log aggregation and view-state engine of a terminal dashboard that groups
//! request logs by request id.

pub mod app;
pub mod app_state;
pub mod app_view;
pub mod layout;
pub mod log_parser;
pub mod simple_mode;
pub mod sql_info;
pub mod text;
