pub mod decision;
pub mod driver;
pub mod traversal;
