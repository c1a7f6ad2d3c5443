use vstd::prelude::*;
use crate::config::SyncConfig;
use crate::enums::entry_type::EntryType;
use crate::error::SyncError;
use crate::functions::file_utils::{plan, probe_at, spec_target_path, step};
use crate::proofs::decision::lemma_decision_is_idempotent;
use crate::proofs::traversal::{
    below, is_proper_prefix, lemma_depth_counts_ancestors, lemma_parents_first, parents_first,
};
use crate::structs::decision::DecisionView;
use crate::structs::entry::{DirEntry, EntryView};
use crate::structs::meta::FileProbe;
use crate::structs::report::{probe_after, ActionView};

verus! {

/// A run succeeds exactly if every entry has an action, and then it holds
/// the action of each entry at the position of the entry.
pub proof fn lemma_plan_pointwise(
    entries: Seq<EntryView>,
    probes: Seq<FileProbe>,
    config: SyncConfig,
)
    ensures
        plan(entries, probes, config) is Ok <==> (forall|i: int|
            0 <= i < entries.len() ==> step(#[trigger] entries[i], probe_at(probes, i), config)
                is Ok),
        plan(entries, probes, config) matches Ok(actions) ==> {
            &&& actions.len() == entries.len()
            &&& forall|i: int|
                0 <= i < entries.len() ==> step(#[trigger] entries[i], probe_at(probes, i), config)
                    == Ok::<ActionView, SyncError>(actions[i])
        },
    decreases entries.len(),
{
    if entries.len() > 0 {
        let front = entries.drop_last();
        let n = entries.len() - 1;
        lemma_plan_pointwise(front, probes, config);
        assert(entries.last() == entries[n]);
        assert forall|i: int| 0 <= i < front.len() implies front[i] == entries[i] by {}
        if plan(entries, probes, config) is Ok {
            assert forall|i: int| 0 <= i < entries.len() implies step(
                #[trigger] entries[i],
                probe_at(probes, i),
                config,
            ) is Ok by {
                if i < n {
                    assert(front[i] == entries[i]);
                }
            }
        }
        if forall|i: int|
            0 <= i < entries.len() ==> step(#[trigger] entries[i], probe_at(probes, i), config)
                is Ok {
            assert forall|i: int| 0 <= i < front.len() implies step(
                #[trigger] front[i],
                probe_at(probes, i),
                config,
            ) is Ok by {
                assert(front[i] == entries[i]);
            }
            assert(step(entries[n], probe_at(probes, n), config) is Ok);
        }
        if let Ok(actions) = plan(entries, probes, config) {
            let done = plan(front, probes, config)->Ok_0;
            assert forall|i: int| 0 <= i < entries.len() implies step(
                #[trigger] entries[i],
                probe_at(probes, i),
                config,
            ) == Ok::<ActionView, SyncError>(actions[i]) by {
                if i < n {
                    assert(front[i] == entries[i]);
                    assert(actions[i] == done[i]);
                }
            }
        }
    }
}

/// What is found at the two ends of each entry once a run has dealt with
/// its actions.
pub open spec fn probes_after(
    actions: Seq<ActionView>,
    simulate: bool,
    probes: Seq<FileProbe>,
) -> Seq<FileProbe> {
    Seq::new(actions.len(), |i: int| probe_after(actions[i], simulate, probe_at(probes, i)))
}

/// Whether the action leaves every file as it is.
pub open spec fn copies_nothing(action: ActionView) -> bool {
    match action {
        ActionView::CreateDir(_) => true,
        ActionView::File(_, decision, _) => decision == DecisionView::Skip,
    }
}

/// Running twice in succession copies nothing the second time: after a
/// run that is not simulated, a run over the same entries succeeds and
/// skips every file. This holds under every merge policy, `SOURCE` among
/// them.
pub proof fn lemma_second_run_copies_nothing(
    entries: Seq<EntryView>,
    probes: Seq<FileProbe>,
    config: SyncConfig,
)
    requires
        !config.spec_simulate(),
        plan(entries, probes, config) is Ok,
    ensures
        ({
            let first = plan(entries, probes, config)->Ok_0;
            let second = plan(entries, probes_after(first, false, probes), config);
            &&& second is Ok
            &&& second->Ok_0.len() == entries.len()
            &&& forall|i: int| 0 <= i < entries.len() ==> copies_nothing(#[trigger] second->Ok_0[i])
        }),
{
    let first = plan(entries, probes, config)->Ok_0;
    let found = probes_after(first, false, probes);
    lemma_plan_pointwise(entries, probes, config);
    assert forall|i: int| 0 <= i < entries.len() implies step(
        #[trigger] entries[i],
        probe_at(found, i),
        config,
    ) is Ok && copies_nothing(step(entries[i], probe_at(found, i), config)->Ok_0) by {
        let probe = probe_at(probes, i);
        assert(step(entries[i], probe, config) == Ok::<ActionView, SyncError>(first[i]));
        assert(probe_at(found, i) == probe_after(first[i], false, probe));
        if entries[i].kind == EntryType::F {
            lemma_decision_is_idempotent(
                config.spec_merge_policy(),
                config.spec_fallback_policy(),
                probe.source->0,
                probe.target,
            );
        }
    }
    lemma_plan_pointwise(entries, found, config);
    let second = plan(entries, found, config)->Ok_0;
    assert forall|i: int| 0 <= i < entries.len() implies copies_nothing(#[trigger] second[i]) by {
        assert(step(entries[i], probe_at(found, i), config) == Ok::<ActionView, SyncError>(
            second[i],
        ));
    }
}

/// A simulated run reports what a real run would report and changes
/// nothing: two configurations that differ at most in being simulated and
/// verbose plan the same actions, and under simulation no action asks for
/// a change on disk, so that afterwards everything is found as before.
pub proof fn lemma_simulation_reports_the_same(
    entries: Seq<EntryView>,
    probes: Seq<FileProbe>,
    applied: SyncConfig,
    simulated: SyncConfig,
)
    requires
        applied.spec_source_root()@ == simulated.spec_source_root()@,
        applied.spec_target_root()@ == simulated.spec_target_root()@,
        applied.spec_merge_policy() == simulated.spec_merge_policy(),
        applied.spec_fallback_policy() == simulated.spec_fallback_policy(),
    ensures
        plan(entries, probes, simulated) == plan(entries, probes, applied),
        forall|action: ActionView| (#[trigger] action.operation(true)).is_none(),
        forall|action: ActionView, probe: FileProbe|
            #[trigger] probe_after(action, true, probe) == probe,
    decreases entries.len(),
{
    if entries.len() > 0 {
        lemma_simulation_reports_the_same(entries.drop_last(), probes, applied, simulated);
    }
}

/// The entries of a well-formed snapshot all lie under its root, so each
/// of them has a place in the target tree: a run over them never fails
/// with `InvalidPath`.
pub proof fn lemma_listing_maps_to_target(root: DirEntry, depth: int, target_root: Seq<Seq<char>>)
    requires
        root.wf(),
    ensures
        forall|i: int|
            0 <= i < root.listing(depth).len() ==> spec_target_path(
                (#[trigger] root.listing(depth)[i]).path,
                root.path@,
                target_root,
            ) is Ok,
{
    if root.entry_type == EntryType::D {
        lemma_depth_counts_ancestors(root, depth);
        assert(below(root.listing(depth), root.path@, depth));
    } else {
        assert(root.path@ =~= root.path@.subrange(0, root.path@.len() as int));
    }
}

/// A run over the traversal of a well-formed snapshot of the source root
/// succeeds whenever every file of it was found on the source side.
pub proof fn lemma_run_succeeds(
    root: DirEntry,
    depth: int,
    probes: Seq<FileProbe>,
    config: SyncConfig,
)
    requires
        root.wf(),
        root.path@ == config.spec_source_root()@,
        forall|i: int|
            0 <= i < root.listing(depth).len() && (#[trigger] root.listing(depth)[i]).kind
                == EntryType::F ==> probe_at(probes, i).source is Some,
    ensures
        plan(root.listing(depth), probes, config) is Ok,
{
    let entries = root.listing(depth);
    lemma_listing_maps_to_target(root, depth, config.spec_target_root()@);
    assert forall|i: int| 0 <= i < entries.len() implies step(
        #[trigger] entries[i],
        probe_at(probes, i),
        config,
    ) is Ok by {}
    lemma_plan_pointwise(entries, probes, config);
}

/// Mapping to the target tree keeps what lies below what: if the place of
/// one source path lies below the place of another, the one source path
/// lies below the other.
pub proof fn lemma_target_keeps_below(
    upper: Seq<Seq<char>>,
    lower: Seq<Seq<char>>,
    source_root: Seq<Seq<char>>,
    target_root: Seq<Seq<char>>,
)
    requires
        spec_target_path(upper, source_root, target_root) is Ok,
        spec_target_path(lower, source_root, target_root) is Ok,
        is_proper_prefix(
            spec_target_path(upper, source_root, target_root)->Ok_0,
            spec_target_path(lower, source_root, target_root)->Ok_0,
        ),
    ensures
        is_proper_prefix(upper, lower),
{
    let n = source_root.len() as int;
    let m = target_root.len() as int;
    let upper_target = target_root + upper.skip(n);
    let lower_target = target_root + lower.skip(n);
    assert forall|k: int| 0 <= k < upper.len() implies upper[k] == lower.subrange(
        0,
        upper.len() as int,
    )[k] by {
        if k < n {
            assert(source_root[k] == upper.subrange(0, n)[k]);
            assert(source_root[k] == lower.subrange(0, n)[k]);
        } else {
            assert(upper[k] == upper_target[m + k - n]);
            assert(upper_target[m + k - n] == lower_target.subrange(
                0,
                upper_target.len() as int,
            )[m + k - n]);
            assert(lower[k] == lower_target[m + k - n]);
        }
    }
    assert(upper =~= lower.subrange(0, upper.len() as int));
}

/// A directory is there before anything is copied into it: in a run over
/// the traversal of a well-formed snapshot of the source root, the action
/// that creates a target directory comes before every action that copies
/// a file to a place below that directory.
pub proof fn lemma_directories_come_first(
    root: DirEntry,
    depth: int,
    probes: Seq<FileProbe>,
    config: SyncConfig,
)
    requires
        root.wf(),
        root.path@ == config.spec_source_root()@,
        plan(root.listing(depth), probes, config) is Ok,
    ensures
        ({
            let actions = plan(root.listing(depth), probes, config)->Ok_0;
            forall|i: int, j: int|
                0 <= i < actions.len() && 0 <= j < actions.len() && (#[trigger] actions[i]
                    matches ActionView::CreateDir(directory) && #[trigger] actions[j]
                    matches ActionView::File(_, DecisionView::CopyForward(_, target), _)
                    && is_proper_prefix(directory, target)) ==> i < j
        }),
{
    let entries = root.listing(depth);
    let actions = plan(entries, probes, config)->Ok_0;
    let source_root = config.spec_source_root()@;
    let target_root = config.spec_target_root()@;
    lemma_plan_pointwise(entries, probes, config);
    lemma_parents_first(root, depth);
    assert forall|i: int, j: int|
        0 <= i < actions.len() && 0 <= j < actions.len() && (#[trigger] actions[i]
            matches ActionView::CreateDir(directory) && #[trigger] actions[j]
            matches ActionView::File(_, DecisionView::CopyForward(_, target), _) && is_proper_prefix(
            directory,
            target,
        )) implies i < j by {
        assert(step(entries[i], probe_at(probes, i), config) == Ok::<ActionView, SyncError>(
            actions[i],
        ));
        assert(step(entries[j], probe_at(probes, j), config) == Ok::<ActionView, SyncError>(
            actions[j],
        ));
        lemma_target_keeps_below(entries[i].path, entries[j].path, source_root, target_root);
        assert(parents_first(entries));
    }
}

} // verus!
