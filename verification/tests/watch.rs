use jbt_desktop_fixer::watch::{keep_candidates, ChangeEvent, EventKind, WatchedPath};

fn path(path: &str, file_name: Option<&str>) -> WatchedPath {
    WatchedPath { path: path.to_string(), file_name: file_name.map(|s| s.to_string()) }
}

fn change(kind: EventKind, needs_rescan: bool) -> ChangeEvent {
    ChangeEvent { paths: vec![path("/apps/jetbrains-idea.desktop", Some("jetbrains-idea.desktop"))], kind, needs_rescan }
}

#[test]
fn file_name_with_the_mark_is_a_candidate() {
    assert!(path("/apps/jetbrains-idea.desktop", Some("jetbrains-idea.desktop")).is_candidate());
    assert!(path("/apps/x", Some("com.jetbrains.toolbox")).is_candidate());
    assert!(path("/apps/x", Some("jetbrains")).is_candidate());
}

#[test]
fn unrelated_file_name_is_no_candidate() {
    assert!(!path("/apps/unrelated-app.desktop", Some("unrelated-app.desktop")).is_candidate());
    assert!(!path("/apps/x", Some("")).is_candidate());
    assert!(!path("/apps/x", Some("jetbrain")).is_candidate());
}

#[test]
fn the_mark_is_matched_in_its_own_case() {
    assert!(!path("/apps/JetBrains-idea.desktop", Some("JetBrains-idea.desktop")).is_candidate());
    assert!(!path("/apps/JETBRAINS", Some("JETBRAINS")).is_candidate());
}

#[test]
fn only_the_file_name_counts() {
    assert!(!path("/jetbrains/unrelated-app.desktop", Some("unrelated-app.desktop")).is_candidate());
    assert!(!path("/apps/jetbrains/..", None).is_candidate());
}

#[test]
fn keep_candidates_keeps_order() {
    let paths = vec![
        path("/a/jetbrains-b", Some("jetbrains-b")),
        path("/a/other", Some("other")),
        path("/a/..", None),
        path("/a/jetbrains-a", Some("jetbrains-a")),
        path("/a/jetbrains-b", Some("jetbrains-b")),
    ];
    let kept = keep_candidates(paths);
    assert_eq!(
        kept,
        vec![
            path("/a/jetbrains-b", Some("jetbrains-b")),
            path("/a/jetbrains-a", Some("jetbrains-a")),
            path("/a/jetbrains-b", Some("jetbrains-b")),
        ]
    );
    assert_eq!(keep_candidates(vec![]), vec![]);
    assert_eq!(keep_candidates(vec![path("/a/other", Some("other"))]), vec![]);
}

#[test]
fn created_and_modified_are_relevant() {
    assert!(change(EventKind::Created, false).is_relevant());
    assert!(change(EventKind::Modified, false).is_relevant());
}

#[test]
fn other_kinds_are_not_relevant() {
    assert!(!change(EventKind::Other, false).is_relevant());
}

#[test]
fn a_change_that_asks_for_a_rescan_is_not_relevant() {
    assert!(!change(EventKind::Created, true).is_relevant());
    assert!(!change(EventKind::Modified, true).is_relevant());
    assert!(!change(EventKind::Other, true).is_relevant());
}
