use vstd::prelude::*;
use crate::config::SyncConfig;
use crate::enums::entry_type::EntryType;
use crate::enums::merge_mode::MergeMode;
use crate::error::SyncError;
use crate::path::{relativize, remap, SyncPath};
use crate::structs::decision::{decision_for, outcome_of, reason_of, resolve, Decision, Reason};
use crate::structs::entry::{entries_view, walk_all, DirEntry, Entry, EntryView};
use crate::structs::meta::{FileMeta, FileProbe};
use crate::structs::report::{actions_view, Action, ActionView, SyncReport};

verus! {

/// What a path is, given what a look at the filesystem found there.
pub open spec fn spec_classify(is_file: bool, is_dir: bool) -> Result<EntryType, SyncError> {
    if is_file {
        Ok(EntryType::F)
    } else if is_dir {
        Ok(EntryType::D)
    } else {
        Err(SyncError::NotFound)
    }
}

/// Classifies a path from the two answers of the filesystem. A path that
/// is neither a regular file nor a directory is `NotFound`.
pub fn classify(is_file: bool, is_dir: bool) -> (r: Result<EntryType, SyncError>)
    ensures
        r == spec_classify(is_file, is_dir),
        !is_file && !is_dir ==> r == Err::<EntryType, SyncError>(SyncError::NotFound),
{
    if is_file {
        Ok(EntryType::F)
    } else if is_dir {
        Ok(EntryType::D)
    } else {
        Err(SyncError::NotFound)
    }
}

/// The walk of the first `n + 1` nodes is the walk of the first `n`
/// followed by the walk of the next one.
proof fn lemma_walk_all_step(nodes: Seq<DirEntry>, n: int, depth: int)
    requires
        0 <= n < nodes.len(),
    ensures
        walk_all(nodes.take(n + 1), depth) == walk_all(nodes.take(n), depth) + nodes[n].walk(depth),
{
    assert(nodes.take(n + 1).drop_last() =~= nodes.take(n));
}

/// Lists what lies under `root` in traversal order: if `root` is a file,
/// the file alone; if it is a directory, each of its children in listing
/// order, a directory right before its own contents, which are one level
/// deeper. The root's direct children are at `depth`.
///
/// No order is imposed on the children of a directory: they come in the
/// order in which the snapshot holds them, which is the order in which
/// the platform listed the directory.
pub fn list_entries(root: &DirEntry, depth: i32) -> (entries: Vec<Entry>)
    requires
        root.spec_fits(depth as int),
    ensures
        entries_view(entries@) == root.listing(depth as int),
    decreases root,
{
    let mut items: Vec<Entry> = Vec::new();
    if root.is_file() {
        items.push(Entry { path: root.path.clone(), kind: EntryType::F, depth });
        assert(entries_view(items@) =~= root.listing(depth as int));
        return items;
    }
    let mut i: usize = 0;
    assert(entries_view(items@) =~= walk_all(root.child_entries@.take(0), depth as int));
    while i < root.child_entries.len()
        invariant
            i <= root.child_entries.len(),
            root.entry_type == EntryType::D,
            root.spec_fits(depth as int),
            entries_view(items@) == walk_all(root.child_entries@.take(i as int), depth as int),
        decreases root.child_entries.len() - i,
    {
        let child = &root.child_entries[i];
        let ghost before = items@;
        proof {
            lemma_walk_all_step(root.child_entries@, i as int, depth as int);
        }
        if child.is_file() {
            items.push(Entry { path: child.path.clone(), kind: EntryType::F, depth });
            assert(entries_view(items@) =~= entries_view(before) + child.walk(depth as int));
        } else {
            items.push(Entry { path: child.path.clone(), kind: EntryType::D, depth });
            let ghost pushed = items@;
            let mut sub_items = list_entries(child, depth + 1);
            let ghost listed = sub_items@;
            items.append(&mut sub_items);
            assert(items@ == pushed + listed);
            assert(entries_view(items@) =~= entries_view(before) + child.walk(depth as int));
        }
        i += 1;
    }
    assert(root.child_entries@.take(i as int) =~= root.child_entries@);
    items
}

/// Whether two files count as the same file: equal size and equal
/// modification time.
pub fn is_same_file(a: FileMeta, b: FileMeta) -> (same: bool)
    ensures
        same == a.same_as(b),
{
    a.size == b.size && a.modified == b.modified
}

/// What one policy says of two differing files.
fn resolve_policy(policy: MergeMode, source: FileMeta, target: FileMeta) -> (r: Option<Reason>)
    ensures
        r == resolve(policy, source, target),
{
    match policy {
        MergeMode::SOURCE => Some(Reason::SourceWins),
        MergeMode::TARGET => Some(Reason::TargetWins),
        MergeMode::BIGGER => {
            if source.size > target.size {
                Some(Reason::SourceBigger)
            } else if target.size > source.size {
                Some(Reason::TargetBigger)
            } else {
                Some(Reason::SameSize)
            }
        },
        MergeMode::NEWER => {
            if source.modified > target.modified {
                Some(Reason::SourceNewer)
            } else if target.modified > source.modified {
                Some(Reason::TargetNewer)
            } else {
                None
            }
        },
        MergeMode::DIFFERENT => None,
        MergeMode::INTERVENTION => None,
        MergeMode::SKIP => Some(Reason::SkipPolicy),
    }
}

/// Finds why one file of the source tree is copied or left alone.
///
/// `source` is the metadata of the file on the source side; `target` is
/// that of the file on the target side, `None` where it has none.
pub fn explain(source: FileMeta, target: Option<FileMeta>, config: &SyncConfig) -> (reason: Reason)
    ensures
        reason == reason_of(config.merge_policy(), config.fallback_policy(), source, target),
{
    match target {
        None => Reason::TargetMissing,
        Some(t) => {
            if is_same_file(source, t) {
                Reason::SameFile
            } else {
                match resolve_policy(config.merge_policy(), source, t) {
                    Some(reason) => reason,
                    None => match resolve_policy(
                        config.fallback_policy().as_merge_mode(),
                        source,
                        t,
                    ) {
                        Some(reason) => reason,
                        None => Reason::Undecided,
                    },
                }
            }
        },
    }
}

/// The decision that carries out what a reason asks for between two
/// paths.
fn decision_from(reason: Reason, source_path: &SyncPath, target_path: &SyncPath) -> (d: Decision)
    ensures
        d@ == decision_for(reason.outcome(), source_path@, target_path@),
{
    match reason {
        Reason::SameFile | Reason::SameSize | Reason::SkipPolicy | Reason::Undecided => Decision::Skip,
        Reason::TargetMissing | Reason::SourceWins | Reason::SourceBigger | Reason::SourceNewer => {
            Decision::CopyForward(source_path.clone(), target_path.clone())
        },
        Reason::TargetWins | Reason::TargetBigger | Reason::TargetNewer => Decision::CopyBackward(
            target_path.clone(),
            source_path.clone(),
        ),
    }
}

/// Decides what happens to one file of the source tree.
///
/// `source` is the metadata of the file at `source_path`; `target` is that
/// of the file at `target_path`, `None` where the target side has none.
pub fn decide(
    source_path: &SyncPath,
    target_path: &SyncPath,
    source: FileMeta,
    target: Option<FileMeta>,
    config: &SyncConfig,
) -> (d: Decision)
    ensures
        d@ == decision_for(
            outcome_of(config.merge_policy(), config.fallback_policy(), source, target),
            source_path@,
            target_path@,
        ),
{
    decision_from(explain(source, target, config), source_path, target_path)
}

/// Where a path of the source tree belongs in the target tree: its part
/// below the source root, placed under the target root. A path that does
/// not lie under the source root is an `InvalidPath`.
pub open spec fn spec_target_path(
    path: Seq<Seq<char>>,
    source_root: Seq<Seq<char>>,
    target_root: Seq<Seq<char>>,
) -> Result<Seq<Seq<char>>, SyncError> {
    if source_root.is_prefix_of(path) {
        Ok(target_root + path.skip(source_root.len() as int))
    } else {
        Err(SyncError::InvalidPath)
    }
}

/// Where a path of the source tree belongs in the target tree.
pub fn target_path(path: &SyncPath, config: &SyncConfig) -> (r: Result<SyncPath, SyncError>)
    ensures
        match r {
            Ok(t) => spec_target_path(path@, config.source_root()@, config.target_root()@) == Ok::<
                Seq<Seq<char>>,
                SyncError,
            >(t@),
            Err(e) => spec_target_path(path@, config.source_root()@, config.target_root()@) == Err::<
                Seq<Seq<char>>,
                SyncError,
            >(e),
        },
{
    match relativize(path, config.source_root()) {
        Ok(relative) => Ok(remap(&relative, config.target_root())),
        Err(e) => Err(e),
    }
}

/// What was found for the entry at position `i`; nothing on either side
/// where the list of probes is too short.
pub open spec fn probe_at(probes: Seq<FileProbe>, i: int) -> FileProbe {
    if 0 <= i < probes.len() {
        probes[i]
    } else {
        FileProbe { source: None, target: None }
    }
}

/// What a run does for one entry.
///
/// An entry that does not lie under the source root is an `InvalidPath`.
/// A directory is created on the target side. A file whose source was not
/// found is `NotFound`; any other file gets the decision of the policies,
/// with the reason for it.
pub open spec fn step(entry: EntryView, probe: FileProbe, config: SyncConfig) -> Result<
    ActionView,
    SyncError,
> {
    match spec_target_path(entry.path, config.spec_source_root()@, config.spec_target_root()@) {
        Err(e) => Err(e),
        Ok(target) => match entry.kind {
            EntryType::D => Ok(ActionView::CreateDir(target)),
            EntryType::F => match probe.source {
                None => Err(SyncError::NotFound),
                Some(source) => {
                    let reason = reason_of(
                        config.spec_merge_policy(),
                        config.spec_fallback_policy(),
                        source,
                        probe.target,
                    );
                    Ok(
                        ActionView::File(
                            entry.path,
                            decision_for(reason.outcome(), entry.path, target),
                            reason,
                        ),
                    )
                },
            },
        },
    }
}

/// What a run does for the entries, in their order: the actions of all of
/// them, or the error of the first entry that has one.
pub open spec fn plan(entries: Seq<EntryView>, probes: Seq<FileProbe>, config: SyncConfig) -> Result<
    Seq<ActionView>,
    SyncError,
>
    decreases entries.len(),
{
    if entries.len() == 0 {
        Ok(Seq::empty())
    } else {
        match plan(entries.drop_last(), probes, config) {
            Err(e) => Err(e),
            Ok(actions) => match step(entries.last(), probe_at(probes, entries.len() - 1), config) {
                Err(e) => Err(e),
                Ok(action) => Ok(actions.push(action)),
            },
        }
    }
}

/// Works out what a run does for one entry, given what was found at the
/// two ends of it.
pub fn copy_entry(entry: &Entry, probe: FileProbe, config: &SyncConfig) -> (r: Result<
    Action,
    SyncError,
>)
    ensures
        match r {
            Ok(action) => step(entry@, probe, *config) == Ok::<ActionView, SyncError>(action@),
            Err(e) => step(entry@, probe, *config) == Err::<ActionView, SyncError>(e),
        },
{
    let target = match target_path(&entry.path, config) {
        Ok(target) => target,
        Err(e) => {
            return Err(e);
        },
    };
    match entry.kind {
        EntryType::D => Ok(Action::CreateDir(target)),
        EntryType::F => match probe.source {
            None => Err(SyncError::NotFound),
            Some(source) => {
                let reason = explain(source, probe.target, config);
                let decision = decision_from(reason, &entry.path, &target);
                Ok(Action::File(entry.path.clone(), decision, reason))
            },
        },
    }
}

/// Works out what a run does for the entries of a traversal, in their
/// order. `probes` holds, position by position, what was found at the two
/// ends of each entry; it is not read for directories.
///
/// Nothing is changed on disk: the report says what is to be changed.
/// The first entry that fails ends the run with its error. A caller that
/// carries each action out before it looks at the next entry asks
/// `copy_entry` for one action at a time; it gets the actions of this
/// function where carrying out one action does not change what is found
/// at a later entry.
///
/// Only what the traversal of the source tree found is dealt with. A file
/// that exists on the target side alone is never seen, so no policy, not
/// even `TARGET`, brings it over to the source side.
pub fn copy_entries(entries: &Vec<Entry>, config: &SyncConfig, probes: &Vec<FileProbe>) -> (r: Result<
    SyncReport,
    SyncError,
>)
    ensures
        match r {
            Ok(report) => {
                &&& plan(entries_view(entries@), probes@, *config) == Ok::<
                    Seq<ActionView>,
                    SyncError,
                >(actions_view(report.actions@))
                &&& report.simulate == config.simulate()
            },
            Err(e) => plan(entries_view(entries@), probes@, *config) == Err::<
                Seq<ActionView>,
                SyncError,
            >(e),
        },
{
    let mut actions: Vec<Action> = Vec::new();
    let ghost all = entries_view(entries@);
    let mut i: usize = 0;
    assert(all.take(0) =~= Seq::<EntryView>::empty());
    assert(actions_view(actions@) =~= Seq::<ActionView>::empty());
    while i < entries.len()
        invariant
            i <= entries.len(),
            all == entries_view(entries@),
            plan(all.take(i as int), probes@, *config) == Ok::<Seq<ActionView>, SyncError>(
                actions_view(actions@),
            ),
        decreases entries.len() - i,
    {
        let probe = if i < probes.len() {
            probes[i]
        } else {
            FileProbe { source: None, target: None }
        };
        proof {
            assert(all.take(i + 1).drop_last() =~= all.take(i as int));
            assert(all.take(i + 1).last() == entries@[i as int]@);
        }
        let ghost before = actions@;
        match copy_entry(&entries[i], probe, config) {
            Ok(action) => {
                actions.push(action);
                assert(actions_view(actions@) =~= actions_view(before).push(action@));
            },
            Err(e) => {
                proof {
                    lemma_plan_stops(all, i + 1, probes@, *config);
                }
                return Err(e);
            },
        }
        i += 1;
    }
    assert(all.take(i as int) =~= all);
    Ok(SyncReport { actions, simulate: config.simulate() })
}

/// A run that fails on some of its first entries fails with the same error
/// on all of them.
proof fn lemma_plan_stops(entries: Seq<EntryView>, n: int, probes: Seq<FileProbe>, config: SyncConfig)
    requires
        0 <= n <= entries.len(),
        plan(entries.take(n), probes, config) is Err,
    ensures
        plan(entries, probes, config) == plan(entries.take(n), probes, config),
    decreases entries.len() - n,
{
    if n < entries.len() {
        assert(entries.take(n + 1).drop_last() =~= entries.take(n));
        lemma_plan_stops(entries, n + 1, probes, config);
    } else {
        assert(entries.take(n) =~= entries);
    }
}

} // verus!
