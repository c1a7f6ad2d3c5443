use filesync::config::SyncConfig;
use filesync::enums::fallback_mode::FallbackMode;
use filesync::enums::merge_mode::MergeMode;
use filesync::enums::sync_mode::SyncMode;
use filesync::functions::file_utils::{decide, explain, is_same_file};
use filesync::path::SyncPath;
use filesync::structs::decision::{Decision, Reason};
use filesync::structs::meta::FileMeta;

fn path_of(parts: &[&str]) -> SyncPath {
    SyncPath::new(parts.iter().map(|s| s.to_string()).collect())
}

fn config(merge: MergeMode, fallback: FallbackMode) -> SyncConfig {
    SyncConfig::new(path_of(&["src"]), path_of(&["tgt"]), SyncMode::SYNC, merge, fallback, false, false)
        .unwrap()
}

fn meta(size: u64, modified: i128) -> FileMeta {
    FileMeta { size, modified }
}

fn decide_with(
    merge: MergeMode,
    fallback: FallbackMode,
    source: FileMeta,
    target: Option<FileMeta>,
) -> Decision {
    decide(
        &path_of(&["src", "f.txt"]),
        &path_of(&["tgt", "f.txt"]),
        source,
        target,
        &config(merge, fallback),
    )
}

fn forward() -> Decision {
    Decision::CopyForward(path_of(&["src", "f.txt"]), path_of(&["tgt", "f.txt"]))
}

fn backward() -> Decision {
    Decision::CopyBackward(path_of(&["tgt", "f.txt"]), path_of(&["src", "f.txt"]))
}

const ALL_MERGE_MODES: [MergeMode; 7] = [
    MergeMode::SOURCE,
    MergeMode::TARGET,
    MergeMode::BIGGER,
    MergeMode::NEWER,
    MergeMode::DIFFERENT,
    MergeMode::INTERVENTION,
    MergeMode::SKIP,
];

const TERMINAL_FALLBACKS: [FallbackMode; 4] =
    [FallbackMode::SOURCE, FallbackMode::TARGET, FallbackMode::BIGGER, FallbackMode::SKIP];

#[test]
fn same_file_means_equal_size_and_equal_time() {
    assert!(is_same_file(meta(10, 5), meta(10, 5)));
    assert!(!is_same_file(meta(10, 5), meta(11, 5)));
    assert!(!is_same_file(meta(10, 5), meta(10, 6)));
    assert!(!is_same_file(meta(10, 5), meta(11, 6)));
}

#[test]
fn a_missing_target_is_copied_forward_under_every_policy() {
    for merge in ALL_MERGE_MODES {
        for fallback in TERMINAL_FALLBACKS {
            assert_eq!(decide_with(merge, fallback, meta(10, 5), None), forward());
        }
    }
}

#[test]
fn equal_size_and_time_is_skipped_under_every_policy() {
    for merge in ALL_MERGE_MODES {
        for fallback in TERMINAL_FALLBACKS {
            assert_eq!(decide_with(merge, fallback, meta(10, 5), Some(meta(10, 5))), Decision::Skip);
        }
    }
}

#[test]
fn source_policy_always_copies_forward() {
    assert_eq!(
        decide_with(MergeMode::SOURCE, FallbackMode::SKIP, meta(1, 1), Some(meta(9, 9))),
        forward()
    );
}

#[test]
fn target_policy_always_copies_backward() {
    assert_eq!(
        decide_with(MergeMode::TARGET, FallbackMode::SKIP, meta(9, 9), Some(meta(1, 1))),
        backward()
    );
}

#[test]
fn bigger_policy_copies_from_the_larger_side() {
    assert_eq!(
        decide_with(MergeMode::BIGGER, FallbackMode::SKIP, meta(20, 1), Some(meta(10, 9))),
        forward()
    );
    assert_eq!(
        decide_with(MergeMode::BIGGER, FallbackMode::SKIP, meta(10, 9), Some(meta(20, 1))),
        backward()
    );
}

#[test]
fn bigger_policy_with_larger_target_copies_backward() {
    let d = decide_with(MergeMode::BIGGER, FallbackMode::SKIP, meta(100, 50), Some(meta(200, 10)));
    assert_eq!(d, backward());
}

#[test]
fn bigger_policy_never_copies_on_a_size_tie() {
    for fallback in TERMINAL_FALLBACKS {
        assert_eq!(
            decide_with(MergeMode::BIGGER, fallback, meta(10, 1), Some(meta(10, 2))),
            Decision::Skip
        );
        assert_eq!(
            decide_with(MergeMode::BIGGER, fallback, meta(10, 2), Some(meta(10, 1))),
            Decision::Skip
        );
    }
}

#[test]
fn newer_policy_copies_from_the_more_recent_side() {
    assert_eq!(
        decide_with(MergeMode::NEWER, FallbackMode::SKIP, meta(1, 9), Some(meta(5, 3))),
        forward()
    );
    assert_eq!(
        decide_with(MergeMode::NEWER, FallbackMode::SKIP, meta(5, 3), Some(meta(1, 9))),
        backward()
    );
}

#[test]
fn newer_policy_falls_back_on_a_time_tie() {
    let s = meta(5, 7);
    let t = Some(meta(9, 7));
    assert_eq!(decide_with(MergeMode::NEWER, FallbackMode::SOURCE, s, t), forward());
    assert_eq!(decide_with(MergeMode::NEWER, FallbackMode::TARGET, s, t), backward());
    assert_eq!(decide_with(MergeMode::NEWER, FallbackMode::BIGGER, s, t), backward());
    assert_eq!(decide_with(MergeMode::NEWER, FallbackMode::SKIP, s, t), Decision::Skip);
}

#[test]
fn different_and_intervention_always_fall_back() {
    let s = meta(5, 9);
    let t = Some(meta(9, 1));
    for merge in [MergeMode::DIFFERENT, MergeMode::INTERVENTION] {
        assert_eq!(decide_with(merge, FallbackMode::SOURCE, s, t), forward());
        assert_eq!(decide_with(merge, FallbackMode::TARGET, s, t), backward());
        assert_eq!(decide_with(merge, FallbackMode::BIGGER, s, t), backward());
        assert_eq!(decide_with(merge, FallbackMode::SKIP, s, t), Decision::Skip);
    }
}

#[test]
fn fallback_bigger_skips_a_size_tie() {
    assert_eq!(
        decide_with(MergeMode::INTERVENTION, FallbackMode::BIGGER, meta(10, 1), Some(meta(10, 2))),
        Decision::Skip
    );
}

#[test]
fn skip_policy_never_copies_differing_files() {
    assert_eq!(
        decide_with(MergeMode::SKIP, FallbackMode::SOURCE, meta(1, 1), Some(meta(9, 9))),
        Decision::Skip
    );
}

#[test]
fn extreme_sizes_and_times_are_compared_exactly() {
    assert_eq!(
        decide_with(MergeMode::BIGGER, FallbackMode::SKIP, meta(u64::MAX, 0), Some(meta(0, 0))),
        forward()
    );
    assert_eq!(
        decide_with(
            MergeMode::NEWER,
            FallbackMode::SKIP,
            meta(1, i128::MIN),
            Some(meta(2, i128::MAX))
        ),
        backward()
    );
}

fn explain_with(
    merge: MergeMode,
    fallback: FallbackMode,
    source: FileMeta,
    target: Option<FileMeta>,
) -> Reason {
    explain(source, target, &config(merge, fallback))
}

#[test]
fn each_decision_has_its_reason() {
    let skip = FallbackMode::SKIP;
    assert_eq!(explain_with(MergeMode::TARGET, skip, meta(1, 1), None), Reason::TargetMissing);
    assert_eq!(explain_with(MergeMode::TARGET, skip, meta(1, 1), Some(meta(1, 1))), Reason::SameFile);
    assert_eq!(explain_with(MergeMode::SOURCE, skip, meta(1, 1), Some(meta(2, 2))), Reason::SourceWins);
    assert_eq!(explain_with(MergeMode::TARGET, skip, meta(1, 1), Some(meta(2, 2))), Reason::TargetWins);
    assert_eq!(explain_with(MergeMode::BIGGER, skip, meta(3, 1), Some(meta(2, 2))), Reason::SourceBigger);
    assert_eq!(explain_with(MergeMode::BIGGER, skip, meta(1, 1), Some(meta(2, 2))), Reason::TargetBigger);
    assert_eq!(explain_with(MergeMode::BIGGER, skip, meta(2, 1), Some(meta(2, 2))), Reason::SameSize);
    assert_eq!(explain_with(MergeMode::NEWER, skip, meta(1, 3), Some(meta(2, 2))), Reason::SourceNewer);
    assert_eq!(explain_with(MergeMode::NEWER, skip, meta(1, 1), Some(meta(2, 2))), Reason::TargetNewer);
    assert_eq!(explain_with(MergeMode::SKIP, FallbackMode::SOURCE, meta(1, 1), Some(meta(2, 2))), Reason::SkipPolicy);
}

#[test]
fn an_undecided_pair_gets_the_reason_of_the_fallback() {
    let s = meta(5, 7);
    let t = Some(meta(9, 7));
    for merge in [MergeMode::NEWER, MergeMode::DIFFERENT, MergeMode::INTERVENTION] {
        assert_eq!(explain_with(merge, FallbackMode::SOURCE, s, t), Reason::SourceWins);
        assert_eq!(explain_with(merge, FallbackMode::TARGET, s, t), Reason::TargetWins);
        assert_eq!(explain_with(merge, FallbackMode::BIGGER, s, t), Reason::TargetBigger);
        assert_eq!(explain_with(merge, FallbackMode::SKIP, s, t), Reason::SkipPolicy);
    }
}

#[test]
fn reason_notes() {
    assert_eq!(Reason::TargetMissing.note(), " 복사");
    assert_eq!(Reason::SameFile.note(), " (파일 동일)");
    assert_eq!(Reason::SourceWins.note(), " 원본 덮어쓰기");
    assert_eq!(Reason::TargetWins.note(), " 대상 덮어쓰기");
    assert_eq!(Reason::SourceBigger.note(), " 덮어쓰기 (원본이 더 큼)");
    assert_eq!(Reason::TargetBigger.note(), " 덮어쓰기 (대상이 더 큼)");
    assert_eq!(Reason::SameSize.note(), " (파일 크기 동일)");
    assert_eq!(Reason::SourceNewer.note(), " 덮어쓰기 (원본이 더 최신)");
    assert_eq!(Reason::TargetNewer.note(), " 덮어쓰기 (대상이 더 최신)");
    assert_eq!(Reason::SkipPolicy.note(), " (병합 모드 skip)");
    assert_eq!(Reason::Undecided.note(), " (결정 불가)");
}
