use filesync::error::SyncError;
use filesync::path::{relativize, remap, SyncPath};

fn path_of(parts: &[&str]) -> SyncPath {
    SyncPath::new(parts.iter().map(|s| s.to_string()).collect())
}

#[test]
fn new_keeps_the_components() {
    let p = SyncPath::new(vec!["a".to_string(), "b.txt".to_string()]);
    assert_eq!(p.components, vec!["a".to_string(), "b.txt".to_string()]);
    assert_eq!(p.len(), 2);
    assert_eq!(path_of(&[]).len(), 0);
}

#[test]
fn text_joins_components_with_slashes() {
    assert_eq!(path_of(&[]).to_text(), "");
    assert_eq!(path_of(&["a"]).to_text(), "a");
    assert_eq!(path_of(&["a", "b.txt"]).to_text(), "a/b.txt");
    assert_eq!(path_of(&["", "home", "u"]).to_text(), "/home/u");
}

#[test]
fn clone_is_the_same_path() {
    let p = path_of(&["src", "a", "b.txt"]);
    let q = p.clone();
    assert_eq!(p, q);
    assert!(p.same_as(&q));
}

#[test]
fn same_as_compares_component_by_component() {
    assert!(path_of(&["a", "b"]).same_as(&path_of(&["a", "b"])));
    assert!(!path_of(&["a", "b"]).same_as(&path_of(&["a", "c"])));
    assert!(!path_of(&["a", "b"]).same_as(&path_of(&["a"])));
    assert!(!path_of(&["a"]).same_as(&path_of(&["a", "b"])));
    assert!(path_of(&[]).same_as(&path_of(&[])));
}

#[test]
fn starts_with_is_by_components_not_by_characters() {
    assert!(path_of(&["src", "a"]).starts_with(&path_of(&["src"])));
    assert!(path_of(&["src", "a"]).starts_with(&path_of(&["src", "a"])));
    assert!(path_of(&["src", "a"]).starts_with(&path_of(&[])));
    assert!(!path_of(&["srcs", "a"]).starts_with(&path_of(&["src"])));
    assert!(!path_of(&["src"]).starts_with(&path_of(&["src", "a"])));
    assert!(!path_of(&["x", "a"]).starts_with(&path_of(&["src"])));
}

#[test]
fn child_appends_one_component() {
    assert_eq!(path_of(&["src"]).child("a"), path_of(&["src", "a"]));
    assert_eq!(path_of(&[]).child("a"), path_of(&["a"]));
}

#[test]
fn relativize_strips_the_base() {
    assert_eq!(
        relativize(&path_of(&["src", "a", "b.txt"]), &path_of(&["src"])),
        Ok(path_of(&["a", "b.txt"]))
    );
    assert_eq!(relativize(&path_of(&["src"]), &path_of(&["src"])), Ok(path_of(&[])));
    assert_eq!(relativize(&path_of(&["a"]), &path_of(&[])), Ok(path_of(&["a"])));
}

#[test]
fn relativize_rejects_a_path_outside_the_base() {
    assert_eq!(
        relativize(&path_of(&["other", "a"]), &path_of(&["src"])),
        Err(SyncError::InvalidPath)
    );
    assert_eq!(relativize(&path_of(&["src"]), &path_of(&["src", "a"])), Err(SyncError::InvalidPath));
    assert_eq!(relativize(&path_of(&["srcs", "a"]), &path_of(&["src"])), Err(SyncError::InvalidPath));
}

#[test]
fn remap_is_concatenation() {
    assert_eq!(remap(&path_of(&["a", "b.txt"]), &path_of(&["tgt"])), path_of(&["tgt", "a", "b.txt"]));
    assert_eq!(remap(&path_of(&[]), &path_of(&["tgt"])), path_of(&["tgt"]));
    assert_eq!(remap(&path_of(&["a"]), &path_of(&[])), path_of(&["a"]));
}

#[test]
fn remap_then_relativize_gives_the_relative_path_back() {
    let relative = path_of(&["a", "b", "c.txt"]);
    let base = path_of(&["", "mnt", "backup"]);
    assert_eq!(relativize(&remap(&relative, &base), &base), Ok(relative));
}
