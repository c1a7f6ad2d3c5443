use vstd::prelude::*;

verus! {

/// The rule that settles a file which exists on both sides and differs.
#[allow(non_camel_case_types)]
#[derive(Debug, Clone, Copy, PartialEq, Eq, Structural)]
pub enum MergeMode {
    /// The source side always wins.
    SOURCE,
    /// The target side always wins.
    TARGET,
    /// The larger file wins; equal sizes leave both files alone.
    BIGGER,
    /// The more recently modified file wins; equal times are left undecided.
    NEWER,
    /// Differing files are never decided by comparison.
    DIFFERENT,
    /// The operator is to decide; never decided by comparison.
    INTERVENTION,
    /// Differing files are left alone.
    SKIP,
}

impl MergeMode {
    /// The lower-case name of the policy, as a sequence of characters.
    pub open spec fn spec_label(self) -> Seq<char> {
        match self {
            MergeMode::SOURCE => "source"@,
            MergeMode::TARGET => "target"@,
            MergeMode::BIGGER => "bigger"@,
            MergeMode::NEWER => "newer"@,
            MergeMode::DIFFERENT => "different"@,
            MergeMode::INTERVENTION => "intervention"@,
            MergeMode::SKIP => "skip"@,
        }
    }

    /// The name of the value as it is written.
    pub fn label(&self) -> (s: &'static str)
        ensures
            s@ == self.spec_label(),
    {
        match self {
            MergeMode::SOURCE => "source",
            MergeMode::TARGET => "target",
            MergeMode::BIGGER => "bigger",
            MergeMode::NEWER => "newer",
            MergeMode::DIFFERENT => "different",
            MergeMode::INTERVENTION => "intervention",
            MergeMode::SKIP => "skip",
        }
    }
}

} // verus!
