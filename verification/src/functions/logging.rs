use vstd::prelude::*;
use vstd::string::StringExecFns;
use crate::config::SyncConfig;
use crate::enums::fallback_mode::FallbackMode;
use crate::enums::merge_mode::MergeMode;
use crate::enums::sync_mode::SyncMode;
use crate::error::SyncError;
use crate::path::{path_text, relativize, SyncPath};
use crate::structs::entry::{entries_view, Entry, EntryView};

verus! {

/// The characters of each of the strings, in order.
pub open spec fn strings_view(lines: Seq<String>) -> Seq<Seq<char>> {
    Seq::new(lines.len(), |i: int| lines[i]@)
}

/// What is wrong with the settings of a run, in words; `None` where
/// nothing is. Equal roots are named before a fallback that cannot decide
/// by itself.
pub open spec fn spec_config_error_message(
    source_root: Seq<Seq<char>>,
    target_root: Seq<Seq<char>>,
    fallback: FallbackMode,
) -> Option<Seq<char>> {
    if source_root == target_root {
        Some("ERROR: `--source`와 `--target`이 같은 경로일 수 없습니다. 동기화가 수행되지 않습니다."@)
    } else if !fallback.spec_is_terminal() {
        Some(
            "ERROR: `--fallback`은 'source', 'target', 'bigger', 'skip' 중 하나여야 합니다. 동기화가 수행되지 않습니다."@,
        )
    } else {
        None
    }
}

/// What is wrong with the settings of a run, in words, for the caller to
/// print. There is a message exactly for the settings from which no
/// configuration can be built.
pub fn config_error_message(source_root: &SyncPath, target_root: &SyncPath, fallback: FallbackMode) -> (r:
    Option<&'static str>)
    ensures
        match r {
            Some(text) => spec_config_error_message(source_root@, target_root@, fallback) == Some(
                text@,
            ),
            None => spec_config_error_message(source_root@, target_root@, fallback).is_none(),
        },
        r.is_some() <==> (source_root@ == target_root@ || !fallback.spec_is_terminal()),
{
    if source_root.same_as(target_root) {
        Some("ERROR: `--source`와 `--target`이 같은 경로일 수 없습니다. 동기화가 수행되지 않습니다.")
    } else if !fallback.is_terminal() {
        Some(
            "ERROR: `--fallback`은 'source', 'target', 'bigger', 'skip' 중 하나여야 합니다. 동기화가 수행되지 않습니다.",
        )
    } else {
        None
    }
}

/// What a run tells before it starts: a warning where mirroring overrides
/// the merge policy that was asked for, then a note where a dry run
/// switches verbose output on.
pub open spec fn spec_notices(sync_mode: SyncMode, merge_mode: MergeMode, dry_run: bool) -> Seq<
    Seq<char>,
> {
    let warning = if sync_mode == SyncMode::MIRRORING && merge_mode != MergeMode::SOURCE {
        seq![
            "WARN: 미러링 모드에서는 `--merge-mode`를 'source'로만 설정할 수 있습니다. 자동으로 'source'로 설정됩니다."@,
        ]
    } else {
        Seq::empty()
    };
    let note = if dry_run {
        seq!["INFO: 동기화 시뮬레이션 모드가 활성화 되었습니다. verbose 옵션이 활성화 됩니다."@]
    } else {
        Seq::empty()
    };
    warning + note
}

/// The characters of each of the texts, in order.
pub open spec fn texts_view(texts: Seq<&'static str>) -> Seq<Seq<char>> {
    Seq::new(texts.len(), |i: int| texts[i]@)
}

/// What a run tells before it starts, for the caller to print.
pub fn notices(sync_mode: SyncMode, merge_mode: MergeMode, dry_run: bool) -> (r: Vec<&'static str>)
    ensures
        texts_view(r@) == spec_notices(sync_mode, merge_mode, dry_run),
{
    let mut texts: Vec<&'static str> = Vec::new();
    if sync_mode == SyncMode::MIRRORING && merge_mode != MergeMode::SOURCE {
        texts.push(
            "WARN: 미러링 모드에서는 `--merge-mode`를 'source'로만 설정할 수 있습니다. 자동으로 'source'로 설정됩니다.",
        );
    }
    if dry_run {
        texts.push("INFO: 동기화 시뮬레이션 모드가 활성화 되었습니다. verbose 옵션이 활성화 됩니다.");
    }
    assert(texts_view(texts@) =~= spec_notices(sync_mode, merge_mode, dry_run));
    texts
}

/// How a flag is written.
pub open spec fn flag_text(flag: bool) -> Seq<char> {
    if flag {
        "true"@
    } else {
        "false"@
    }
}

/// The lines that state the settings of a run: the two roots, the sync
/// mode, the merge policy in force, and whether the run is simulated.
pub open spec fn input_lines(config: SyncConfig) -> Seq<Seq<char>> {
    seq![
        "원본 경로: "@ + path_text(config.spec_source_root()@),
        "대상 경로: "@ + path_text(config.spec_target_root()@),
        "동기화 모드: "@ + config.spec_sync_mode().spec_label(),
        "병합 모드: "@ + config.spec_merge_policy().spec_label(),
        "동기화 시뮬레이션 여부: "@ + flag_text(config.spec_simulate()),
    ]
}

/// The lines that state the settings of a run, for the caller to print.
pub fn input_logging(config: &SyncConfig) -> (lines: Vec<String>)
    ensures
        strings_view(lines@) == input_lines(*config),
{
    let mut source = String::from_str("원본 경로: ");
    source.append(config.source_root().to_text().as_str());
    let mut target = String::from_str("대상 경로: ");
    target.append(config.target_root().to_text().as_str());
    let mut sync_mode = String::from_str("동기화 모드: ");
    sync_mode.append(config.sync_mode().label());
    let mut merge_mode = String::from_str("병합 모드: ");
    merge_mode.append(config.merge_policy().label());
    let mut dry_run = String::from_str("동기화 시뮬레이션 여부: ");
    dry_run.append(if config.simulate() { "true" } else { "false" });
    let mut lines: Vec<String> = Vec::new();
    lines.push(source);
    lines.push(target);
    lines.push(sync_mode);
    lines.push(merge_mode);
    lines.push(dry_run);
    assert(strings_view(lines@) =~= input_lines(*config));
    lines
}

/// The line that lists one entry: the tag of its kind in brackets and its
/// path below `root`. An entry that does not lie under `root` is an
/// `InvalidPath`.
pub open spec fn entry_line(entry: EntryView, root: Seq<Seq<char>>) -> Result<Seq<char>, SyncError> {
    if root.is_prefix_of(entry.path) {
        Ok("["@ + entry.kind.spec_id() + "] "@ + path_text(entry.path.skip(root.len() as int)))
    } else {
        Err(SyncError::InvalidPath)
    }
}

/// The lines that list the entries, in their order, or the error of the
/// first entry that has one.
pub open spec fn entry_lines(entries: Seq<EntryView>, root: Seq<Seq<char>>) -> Result<
    Seq<Seq<char>>,
    SyncError,
>
    decreases entries.len(),
{
    if entries.len() == 0 {
        Ok(Seq::empty())
    } else {
        match entry_lines(entries.drop_last(), root) {
            Err(e) => Err(e),
            Ok(lines) => match entry_line(entries.last(), root) {
                Err(e) => Err(e),
                Ok(line) => Ok(lines.push(line)),
            },
        }
    }
}

/// A listing that fails on some of its first entries fails with the same
/// error on all of them.
proof fn lemma_entry_lines_stop(entries: Seq<EntryView>, n: int, root: Seq<Seq<char>>)
    requires
        0 <= n <= entries.len(),
        entry_lines(entries.take(n), root) is Err,
    ensures
        entry_lines(entries, root) == entry_lines(entries.take(n), root),
    decreases entries.len() - n,
{
    if n < entries.len() {
        assert(entries.take(n + 1).drop_last() =~= entries.take(n));
        lemma_entry_lines_stop(entries, n + 1, root);
    } else {
        assert(entries.take(n) =~= entries);
    }
}

/// The lines that list the entries of a traversal rooted at
/// `source_path`, one line per entry, for the caller to print.
pub fn entry_logging(source_path: &SyncPath, entries: &Vec<Entry>) -> (r: Result<
    Vec<String>,
    SyncError,
>)
    ensures
        match r {
            Ok(lines) => entry_lines(entries_view(entries@), source_path@) == Ok::<
                Seq<Seq<char>>,
                SyncError,
            >(strings_view(lines@)),
            Err(e) => entry_lines(entries_view(entries@), source_path@) == Err::<
                Seq<Seq<char>>,
                SyncError,
            >(e),
        },
{
    let mut lines: Vec<String> = Vec::new();
    let ghost all = entries_view(entries@);
    let mut i: usize = 0;
    assert(all.take(0) =~= Seq::<EntryView>::empty());
    assert(strings_view(lines@) =~= Seq::<Seq<char>>::empty());
    while i < entries.len()
        invariant
            i <= entries.len(),
            all == entries_view(entries@),
            entry_lines(all.take(i as int), source_path@) == Ok::<Seq<Seq<char>>, SyncError>(
                strings_view(lines@),
            ),
        decreases entries.len() - i,
    {
        let entry = &entries[i];
        proof {
            assert(all.take(i + 1).drop_last() =~= all.take(i as int));
            assert(all.take(i + 1).last() == entry@);
        }
        let ghost before = lines@;
        match relativize(&entry.path, source_path) {
            Ok(relative) => {
                let mut line = String::from_str("[");
                line.append(entry.kind.id());
                line.append("] ");
                line.append(relative.to_text().as_str());
                lines.push(line);
                assert(strings_view(lines@) =~= strings_view(before).push(line@));
            },
            Err(e) => {
                proof {
                    lemma_entry_lines_stop(all, i + 1, source_path@);
                }
                return Err(e);
            },
        }
        i += 1;
    }
    assert(all.take(i as int) =~= all);
    Ok(lines)
}

} // verus!
