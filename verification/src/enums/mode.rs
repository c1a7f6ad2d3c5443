use vstd::prelude::*;

verus! {

/// How the two trees are brought together.
#[allow(non_camel_case_types)]
#[derive(Debug, Clone, Copy, PartialEq, Eq, Structural)]
pub enum Mode {
    /// One direction only: the source is authoritative.
    MIRRORING,
    /// Both directions, as the merge policy decides.
    SYNC,
}

impl Mode {
    /// The lower-case name of the mode, as a sequence of characters.
    pub open spec fn spec_label(self) -> Seq<char> {
        match self {
            Mode::MIRRORING => "mirroring"@,
            Mode::SYNC => "sync"@,
        }
    }

    /// The name of the value as it is written.
    pub fn label(&self) -> (s: &'static str)
        ensures
            s@ == self.spec_label(),
    {
        match self {
            Mode::MIRRORING => "mirroring",
            Mode::SYNC => "sync",
        }
    }
}

} // verus!
