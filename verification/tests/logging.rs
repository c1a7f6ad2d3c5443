use filesync::config::SyncConfig;
use filesync::enums::entry_type::EntryType;
use filesync::enums::fallback_mode::FallbackMode;
use filesync::enums::merge_mode::MergeMode;
use filesync::enums::sync_mode::SyncMode;
use filesync::error::SyncError;
use filesync::functions::logging::{config_error_message, entry_logging, input_logging, notices};
use filesync::path::SyncPath;
use filesync::structs::entry::Entry;

fn path_of(parts: &[&str]) -> SyncPath {
    SyncPath::new(parts.iter().map(|s| s.to_string()).collect())
}

fn entry(parts: &[&str], kind: EntryType, depth: i32) -> Entry {
    Entry { path: path_of(parts), kind, depth }
}

#[test]
fn input_lines_state_the_settings() {
    let c = SyncConfig::new(
        path_of(&["", "data", "src"]),
        path_of(&["", "data", "tgt"]),
        SyncMode::SYNC,
        MergeMode::BIGGER,
        FallbackMode::SKIP,
        true,
        false,
    )
    .unwrap();
    assert_eq!(
        input_logging(&c),
        vec![
            "원본 경로: /data/src".to_string(),
            "대상 경로: /data/tgt".to_string(),
            "동기화 모드: sync".to_string(),
            "병합 모드: bigger".to_string(),
            "동기화 시뮬레이션 여부: true".to_string(),
        ]
    );
}

#[test]
fn input_lines_show_the_merge_mode_in_force() {
    let c = SyncConfig::new(
        path_of(&["src"]),
        path_of(&["tgt"]),
        SyncMode::MIRRORING,
        MergeMode::TARGET,
        FallbackMode::SKIP,
        false,
        false,
    )
    .unwrap();
    let lines = input_logging(&c);
    assert_eq!(lines[2], "동기화 모드: mirroring");
    assert_eq!(lines[3], "병합 모드: source");
    assert_eq!(lines[4], "동기화 시뮬레이션 여부: false");
}

#[test]
fn entry_lines_show_kind_and_path_below_the_root() {
    let entries = vec![
        entry(&["src", "a"], EntryType::D, 0),
        entry(&["src", "a", "b.txt"], EntryType::F, 1),
        entry(&["src", "e.txt"], EntryType::F, 0),
    ];
    assert_eq!(
        entry_logging(&path_of(&["src"]), &entries),
        Ok(vec!["[D] a".to_string(), "[F] a/b.txt".to_string(), "[F] e.txt".to_string()])
    );
}

#[test]
fn entry_lines_of_nothing_are_no_lines() {
    assert_eq!(entry_logging(&path_of(&["src"]), &Vec::new()), Ok(Vec::new()));
}

#[test]
fn entry_lines_of_a_file_root_show_an_empty_path() {
    let entries = vec![entry(&["src", "e.txt"], EntryType::F, 0)];
    assert_eq!(entry_logging(&path_of(&["src", "e.txt"]), &entries), Ok(vec!["[F] ".to_string()]));
}

#[test]
fn entry_lines_fail_on_an_entry_outside_the_root() {
    let entries = vec![entry(&["src", "a"], EntryType::D, 0), entry(&["other", "b"], EntryType::F, 0)];
    assert_eq!(entry_logging(&path_of(&["src"]), &entries), Err(SyncError::InvalidPath));
}

#[test]
fn equal_roots_have_a_message() {
    assert_eq!(
        config_error_message(&path_of(&["same"]), &path_of(&["same"]), FallbackMode::SKIP),
        Some("ERROR: `--source`와 `--target`이 같은 경로일 수 없습니다. 동기화가 수행되지 않습니다.")
    );
}

#[test]
fn a_fallback_that_cannot_decide_has_a_message() {
    for fallback in [FallbackMode::NEWER, FallbackMode::DIFFERENT, FallbackMode::INTERVENTION] {
        assert_eq!(
            config_error_message(&path_of(&["src"]), &path_of(&["tgt"]), fallback),
            Some(
                "ERROR: `--fallback`은 'source', 'target', 'bigger', 'skip' 중 하나여야 합니다. 동기화가 수행되지 않습니다."
            )
        );
    }
}

#[test]
fn equal_roots_are_named_before_the_fallback() {
    let message =
        config_error_message(&path_of(&["same"]), &path_of(&["same"]), FallbackMode::NEWER).unwrap();
    assert!(message.contains("--source"));
}

#[test]
fn there_is_a_message_exactly_where_no_configuration_can_be_built() {
    let roots = [(path_of(&["src"]), path_of(&["tgt"])), (path_of(&["same"]), path_of(&["same"]))];
    let fallbacks = [
        FallbackMode::SOURCE,
        FallbackMode::TARGET,
        FallbackMode::BIGGER,
        FallbackMode::NEWER,
        FallbackMode::DIFFERENT,
        FallbackMode::INTERVENTION,
        FallbackMode::SKIP,
    ];
    for (source, target) in &roots {
        for fallback in fallbacks {
            let built = SyncConfig::new(
                source.clone(),
                target.clone(),
                SyncMode::SYNC,
                MergeMode::SOURCE,
                fallback,
                false,
                false,
            );
            assert_eq!(config_error_message(source, target, fallback).is_some(), built.is_err());
        }
    }
}

#[test]
fn valid_settings_have_no_message() {
    assert_eq!(config_error_message(&path_of(&["src"]), &path_of(&["tgt"]), FallbackMode::SKIP), None);
}

#[test]
fn notices_warn_of_the_override_and_note_the_dry_run() {
    let warning =
        "WARN: 미러링 모드에서는 `--merge-mode`를 'source'로만 설정할 수 있습니다. 자동으로 'source'로 설정됩니다.";
    let note = "INFO: 동기화 시뮬레이션 모드가 활성화 되었습니다. verbose 옵션이 활성화 됩니다.";
    assert_eq!(notices(SyncMode::MIRRORING, MergeMode::TARGET, true), vec![warning, note]);
    assert_eq!(notices(SyncMode::MIRRORING, MergeMode::TARGET, false), vec![warning]);
    assert_eq!(notices(SyncMode::MIRRORING, MergeMode::SOURCE, true), vec![note]);
    assert!(notices(SyncMode::MIRRORING, MergeMode::SOURCE, false).is_empty());
    assert!(notices(SyncMode::SYNC, MergeMode::TARGET, false).is_empty());
    assert_eq!(notices(SyncMode::SYNC, MergeMode::BIGGER, true), vec![note]);
}
