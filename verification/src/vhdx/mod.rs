//! VHDX virtual hard disk files.

pub mod apply_task;
pub mod bat;
pub mod bat_load;
pub mod bat_page;
pub mod cache;
pub mod complete;
pub mod consistency;
pub mod content;
pub mod error;
pub mod flush;
pub mod format;
pub mod guid;
pub mod header;
pub mod io;
pub mod io_guard;
pub mod locator;
pub mod log_task;
pub mod lsn_watermark;
pub mod open;
pub mod refcount;
pub mod request;
pub mod rollback;
pub mod segment;
pub mod utf16;
pub mod write;
