pub mod entry_type;
pub mod fallback_mode;
pub mod merge_mode;
pub mod mode;
pub mod sync_mode;
