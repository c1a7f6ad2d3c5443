use vstd::prelude::*;
use crate::enums::merge_mode::MergeMode;

verus! {

/// The rule used when the merge policy leaves a pair of files undecided.
#[allow(non_camel_case_types)]
#[derive(Debug, Clone, Copy, PartialEq, Eq, Structural)]
pub enum FallbackMode {
    /// The source side always wins.
    SOURCE,
    /// The target side always wins.
    TARGET,
    /// The larger file wins; equal sizes leave both files alone.
    BIGGER,
    /// The more recently modified file wins; equal times are left undecided.
    NEWER,
    /// Differing files are never decided by comparison.
    DIFFERENT,
    /// The operator is to decide; never decided by comparison.
    INTERVENTION,
    /// Differing files are left alone.
    SKIP,
}

impl FallbackMode {
    /// The lower-case name of the policy, as a sequence of characters.
    pub open spec fn spec_label(self) -> Seq<char> {
        match self {
            FallbackMode::SOURCE => "source"@,
            FallbackMode::TARGET => "target"@,
            FallbackMode::BIGGER => "bigger"@,
            FallbackMode::NEWER => "newer"@,
            FallbackMode::DIFFERENT => "different"@,
            FallbackMode::INTERVENTION => "intervention"@,
            FallbackMode::SKIP => "skip"@,
        }
    }

    /// The name of the value as it is written.
    pub fn label(&self) -> (s: &'static str)
        ensures
            s@ == self.spec_label(),
    {
        match self {
            FallbackMode::SOURCE => "source",
            FallbackMode::TARGET => "target",
            FallbackMode::BIGGER => "bigger",
            FallbackMode::NEWER => "newer",
            FallbackMode::DIFFERENT => "different",
            FallbackMode::INTERVENTION => "intervention",
            FallbackMode::SKIP => "skip",
        }
    }

    /// Whether the policy reaches a decision by itself for every pair of
    /// differing files.
    pub open spec fn spec_is_terminal(self) -> bool {
        self == FallbackMode::SOURCE || self == FallbackMode::TARGET || self == FallbackMode::BIGGER
            || self == FallbackMode::SKIP
    }

    /// The merge policy of the same name.
    pub open spec fn spec_as_merge_mode(self) -> MergeMode {
        match self {
            FallbackMode::SOURCE => MergeMode::SOURCE,
            FallbackMode::TARGET => MergeMode::TARGET,
            FallbackMode::BIGGER => MergeMode::BIGGER,
            FallbackMode::NEWER => MergeMode::NEWER,
            FallbackMode::DIFFERENT => MergeMode::DIFFERENT,
            FallbackMode::INTERVENTION => MergeMode::INTERVENTION,
            FallbackMode::SKIP => MergeMode::SKIP,
        }
    }

    /// Whether the policy may stand as a fallback: it must settle every
    /// pair of differing files without a fallback of its own.
    #[verifier::when_used_as_spec(spec_is_terminal)]
    pub fn is_terminal(self) -> (b: bool)
        ensures
            b == self.spec_is_terminal(),
    {
        match self {
            FallbackMode::SOURCE | FallbackMode::TARGET | FallbackMode::BIGGER | FallbackMode::SKIP => true,
            FallbackMode::NEWER | FallbackMode::DIFFERENT | FallbackMode::INTERVENTION => false,
        }
    }

    /// The merge policy of the same name.
    #[verifier::when_used_as_spec(spec_as_merge_mode)]
    pub fn as_merge_mode(self) -> (m: MergeMode)
        ensures
            m == self.spec_as_merge_mode(),
    {
        match self {
            FallbackMode::SOURCE => MergeMode::SOURCE,
            FallbackMode::TARGET => MergeMode::TARGET,
            FallbackMode::BIGGER => MergeMode::BIGGER,
            FallbackMode::NEWER => MergeMode::NEWER,
            FallbackMode::DIFFERENT => MergeMode::DIFFERENT,
            FallbackMode::INTERVENTION => MergeMode::INTERVENTION,
            FallbackMode::SKIP => MergeMode::SKIP,
        }
    }
}

} // verus!
