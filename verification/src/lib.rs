//! Directory reconciliation: given a snapshot of a source tree and the
//! metadata of the files on both sides, decide per entry whether and in
//! which direction to copy so that the two trees converge.
//!
//! Nothing here touches the disk. A caller reads the source tree into a
//! [`structs::entry::DirEntry`] and lists it with
//! [`functions::file_utils::list_entries`]. Then, entry by entry, it looks
//! at both ends of the entry, asks [`functions::file_utils::copy_entry`]
//! for the action, and carries the action out before it turns to the next
//! entry. [`functions::file_utils::copy_entries`] works out a whole run
//! at once from what was found at all entries.

pub mod config;
pub mod enums;
pub mod error;
pub mod functions;
pub mod path;
pub mod proofs;
pub mod structs;
