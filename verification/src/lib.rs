pub mod cache;
pub mod completion;
pub mod config;
pub mod deps;
pub mod format;
pub mod history;
pub mod ipc;
pub mod paths;
pub mod picker;
pub mod text;
pub mod timespec;
pub mod video;
