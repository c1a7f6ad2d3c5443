use vstd::prelude::*;
use crate::enums::fallback_mode::FallbackMode;
use crate::enums::merge_mode::MergeMode;
use crate::enums::sync_mode::SyncMode;
use crate::error::SyncError;
use crate::path::SyncPath;

verus! {

/// The merge policy that is in force: mirroring is source-authoritative,
/// so under it every requested policy gives way to `SOURCE`.
pub open spec fn spec_effective_merge_mode(sync_mode: SyncMode, requested: MergeMode) -> MergeMode {
    if sync_mode == SyncMode::MIRRORING {
        MergeMode::SOURCE
    } else {
        requested
    }
}

/// The merge policy that is in force for a requested one. A caller that
/// wants to warn about an overridden request compares the two.
#[verifier::when_used_as_spec(spec_effective_merge_mode)]
pub fn effective_merge_mode(sync_mode: SyncMode, requested: MergeMode) -> (m: MergeMode)
    ensures
        m == spec_effective_merge_mode(sync_mode, requested),
{
    match sync_mode {
        SyncMode::MIRRORING => MergeMode::SOURCE,
        SyncMode::SYNC => requested,
    }
}

/// The settings of one run. A value exists only if it is valid: the two
/// roots differ, the fallback policy is terminal, mirroring goes with the
/// `SOURCE` policy, and a simulated run is verbose.
#[derive(Debug)]
pub struct SyncConfig {
    source_root: SyncPath,
    target_root: SyncPath,
    sync_mode: SyncMode,
    merge_policy: MergeMode,
    fallback_policy: FallbackMode,
    simulate: bool,
    verbose: bool,
}

impl SyncConfig {
    /// The root of the tree that is read.
    pub closed spec fn spec_source_root(&self) -> &SyncPath {
        &self.source_root
    }

    /// The root of the tree that is brought up to date.
    pub closed spec fn spec_target_root(&self) -> &SyncPath {
        &self.target_root
    }

    /// The sync mode that was asked for.
    pub closed spec fn spec_sync_mode(&self) -> SyncMode {
        self.sync_mode
    }

    /// The merge policy in force.
    pub closed spec fn spec_merge_policy(&self) -> MergeMode {
        self.merge_policy
    }

    /// The policy that decides where the merge policy does not.
    pub closed spec fn spec_fallback_policy(&self) -> FallbackMode {
        self.fallback_policy
    }

    /// Whether the run changes nothing on disk.
    pub closed spec fn spec_simulate(&self) -> bool {
        self.simulate
    }

    /// Whether every action is reported.
    pub closed spec fn spec_verbose(&self) -> bool {
        self.verbose
    }

    /// What makes a configuration valid. Every configuration that a
    /// program holds satisfies it.
    #[verifier::type_invariant]
    pub open spec fn wf(&self) -> bool {
        &&& self.spec_source_root()@ != self.spec_target_root()@
        &&& self.spec_fallback_policy().spec_is_terminal()
        &&& self.spec_sync_mode() == SyncMode::MIRRORING ==> self.spec_merge_policy()
            == MergeMode::SOURCE
        &&& self.spec_simulate() ==> self.spec_verbose()
    }

    /// Validates the settings and builds the configuration.
    ///
    /// Fails with `ConfigurationError` exactly when the roots are the same
    /// path or the fallback policy is not terminal. Under mirroring the
    /// merge policy becomes `SOURCE` whatever was requested; a dry run
    /// switches verbose output on.
    pub fn new(
        source_root: SyncPath,
        target_root: SyncPath,
        sync_mode: SyncMode,
        merge_mode: MergeMode,
        fallback: FallbackMode,
        dry_run: bool,
        verbose: bool,
    ) -> (r: Result<SyncConfig, SyncError>)
        ensures
            match r {
                Ok(c) => {
                    &&& source_root@ != target_root@
                    &&& fallback.spec_is_terminal()
                    &&& c.wf()
                    &&& c.spec_source_root() == source_root
                    &&& c.spec_target_root() == target_root
                    &&& c.spec_sync_mode() == sync_mode
                    &&& c.spec_merge_policy() == spec_effective_merge_mode(sync_mode, merge_mode)
                    &&& c.spec_fallback_policy() == fallback
                    &&& c.spec_simulate() == dry_run
                    &&& c.spec_verbose() == (verbose || dry_run)
                },
                Err(e) => {
                    &&& e == SyncError::ConfigurationError
                    &&& (source_root@ == target_root@ || !fallback.spec_is_terminal())
                },
            },
    {
        if source_root.same_as(&target_root) {
            return Err(SyncError::ConfigurationError);
        }
        if !fallback.is_terminal() {
            return Err(SyncError::ConfigurationError);
        }
        Ok(
            SyncConfig {
                source_root,
                target_root,
                sync_mode,
                merge_policy: effective_merge_mode(sync_mode, merge_mode),
                fallback_policy: fallback,
                simulate: dry_run,
                verbose: verbose || dry_run,
            },
        )
    }

    /// The root of the tree that is read.
    #[verifier::when_used_as_spec(spec_source_root)]
    pub fn source_root(&self) -> (r: &SyncPath)
        ensures
            r == self.spec_source_root(),
    {
        &self.source_root
    }

    /// The root of the tree that is brought up to date.
    #[verifier::when_used_as_spec(spec_target_root)]
    pub fn target_root(&self) -> (r: &SyncPath)
        ensures
            r == self.spec_target_root(),
    {
        &self.target_root
    }

    /// The sync mode that was asked for.
    #[verifier::when_used_as_spec(spec_sync_mode)]
    pub fn sync_mode(&self) -> (r: SyncMode)
        ensures
            r == self.spec_sync_mode(),
    {
        self.sync_mode
    }

    /// The merge policy in force.
    #[verifier::when_used_as_spec(spec_merge_policy)]
    pub fn merge_policy(&self) -> (r: MergeMode)
        ensures
            r == self.spec_merge_policy(),
    {
        self.merge_policy
    }

    /// The policy that decides where the merge policy does not.
    #[verifier::when_used_as_spec(spec_fallback_policy)]
    pub fn fallback_policy(&self) -> (r: FallbackMode)
        ensures
            r == self.spec_fallback_policy(),
    {
        self.fallback_policy
    }

    /// Whether the run changes nothing on disk.
    #[verifier::when_used_as_spec(spec_simulate)]
    pub fn simulate(&self) -> (r: bool)
        ensures
            r == self.spec_simulate(),
    {
        self.simulate
    }

    /// Whether every action is reported.
    #[verifier::when_used_as_spec(spec_verbose)]
    pub fn verbose(&self) -> (r: bool)
        ensures
            r == self.spec_verbose(),
    {
        self.verbose
    }
}

} // verus!
