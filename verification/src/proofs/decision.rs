use vstd::prelude::*;
use crate::config::SyncConfig;
use crate::enums::fallback_mode::FallbackMode;
use crate::enums::merge_mode::MergeMode;
use crate::enums::sync_mode::SyncMode;
use crate::structs::decision::{after, outcome_of, resolve, Outcome};
use crate::structs::meta::FileMeta;

verus! {

/// Under `BIGGER`, two files of equal size are never copied in either
/// direction, whatever their modification times and whatever the
/// fallback.
pub proof fn lemma_bigger_skips_equal_sizes(
    fallback: FallbackMode,
    source: FileMeta,
    target: FileMeta,
)
    requires
        source.size == target.size,
    ensures
        outcome_of(MergeMode::BIGGER, fallback, source, Some(target)) == Outcome::Skip,
{
}

/// Two files of equal size and equal modification time are left alone
/// under every policy.
pub proof fn lemma_same_file_is_skipped(merge: MergeMode, fallback: FallbackMode, meta: FileMeta)
    ensures
        outcome_of(merge, fallback, meta, Some(meta)) == Outcome::Skip,
{
}

/// A file that the target side lacks is copied forward under every
/// policy.
pub proof fn lemma_missing_target_is_copied(
    merge: MergeMode,
    fallback: FallbackMode,
    source: FileMeta,
)
    ensures
        outcome_of(merge, fallback, source, None) == Outcome::Forward,
{
}

/// Once a decision has been carried out, deciding again skips the file:
/// a copy leaves both sides with the same size and time, and a skip
/// leaves them as they were. This holds under every policy, `SOURCE`
/// among them.
pub proof fn lemma_decision_is_idempotent(
    merge: MergeMode,
    fallback: FallbackMode,
    source: FileMeta,
    target: Option<FileMeta>,
)
    ensures
        ({
            let first = outcome_of(merge, fallback, source, target);
            let (source_after, target_after) = after(first, source, target);
            outcome_of(merge, fallback, source_after, target_after) == Outcome::Skip
        }),
{
}

/// A mirroring run is source-authoritative: whatever merge policy was
/// asked for, `SOURCE` is in force, and nothing is ever copied backward.
pub proof fn lemma_mirroring_is_source_authoritative(
    config: SyncConfig,
    source: FileMeta,
    target: Option<FileMeta>,
)
    requires
        config.wf(),
        config.spec_sync_mode() == SyncMode::MIRRORING,
    ensures
        config.spec_merge_policy() == MergeMode::SOURCE,
        outcome_of(config.spec_merge_policy(), config.spec_fallback_policy(), source, target)
            != Outcome::Backward,
{
}

/// With a terminal fallback every pair of differing files is settled by
/// one of the two policies: none is skipped for want of a decision.
pub proof fn lemma_terminal_fallback_decides(
    merge: MergeMode,
    fallback: FallbackMode,
    source: FileMeta,
    target: FileMeta,
)
    requires
        fallback.spec_is_terminal(),
    ensures
        resolve(merge, source, target) is Some || resolve(
            fallback.spec_as_merge_mode(),
            source,
            target,
        ) is Some,
{
}

} // verus!
