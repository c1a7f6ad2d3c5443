use vstd::prelude::*;

verus! {

/// The kind of a filesystem entry.
#[derive(Debug, Clone, Copy, PartialEq, Eq, Structural)]
pub enum EntryType {
    /// Directory
    D,
    /// File
    F,
}

impl EntryType {
    /// The long name of the kind, as a sequence of characters.
    pub open spec fn spec_label(self) -> Seq<char> {
        match self {
            EntryType::D => "Directory"@,
            EntryType::F => "File"@,
        }
    }

    /// The one-letter tag of the kind, as a sequence of characters.
    pub open spec fn spec_id(self) -> Seq<char> {
        match self {
            EntryType::D => "D"@,
            EntryType::F => "F"@,
        }
    }

    /// The name of the value as it is written.
    pub fn label(&self) -> (s: &'static str)
        ensures
            s@ == self.spec_label(),
    {
        match self {
            EntryType::D => "Directory",
            EntryType::F => "File",
        }
    }

    /// The short tag, `"D"` or `"F"`.
    pub fn id(&self) -> (s: &'static str)
        ensures
            s@ == self.spec_id(),
    {
        match self {
            EntryType::D => "D",
            EntryType::F => "F",
        }
    }
}

} // verus!
