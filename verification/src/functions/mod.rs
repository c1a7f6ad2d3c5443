pub mod file_utils;
pub mod logging;
