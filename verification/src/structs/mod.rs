pub mod decision;
pub mod entry;
pub mod meta;
pub mod report;
