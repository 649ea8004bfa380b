use geo_ingest::walk::{Entry, EntryKind, Walk, WalkAction, WalkError};

fn entry(path: &str, kind: EntryKind) -> Entry {
    Entry { path: path.to_string(), kind }
}

fn expect_list(action: WalkAction) -> String {
    match action {
        WalkAction::List(path) => path,
        other => panic!("expected a directory, got {:?}", other),
    }
}

#[test]
fn single_file_is_its_own_walk() {
    let mut walk = Walk::new("/in/a.geojson", EntryKind::File);
    assert!(matches!(walk.next_action(), WalkAction::Finish));
    assert_eq!(walk.into_paths().unwrap(), vec!["/in/a.geojson".to_string()]);
}

#[test]
fn missing_path_fails_the_walk() {
    let mut walk = Walk::new("/nowhere", EntryKind::Missing);
    assert!(matches!(walk.next_action(), WalkAction::Finish));
    match walk.into_paths() {
        Err(WalkError::Missing(path)) => assert_eq!(path, "/nowhere"),
        other => panic!("expected a missing path, got {:?}", other),
    }
}

#[test]
fn path_that_is_neither_file_nor_directory_has_no_files() {
    let mut walk = Walk::new("/dev/null", EntryKind::Other);
    assert!(matches!(walk.next_action(), WalkAction::Finish));
    assert!(walk.into_paths().unwrap().is_empty());
}

#[test]
fn directories_are_expanded_recursively() {
    let mut walk = Walk::new("/in", EntryKind::Directory);
    assert_eq!(expect_list(walk.next_action()), "/in");
    walk.listed(&vec![
        entry("/in/a.geojson", EntryKind::File),
        entry("/in/sub", EntryKind::Directory),
        entry("/in/socket", EntryKind::Other),
        entry("/in/b.geojson", EntryKind::File),
        entry("/in/deep", EntryKind::Directory),
    ]);
    assert_eq!(expect_list(walk.next_action()), "/in/deep");
    walk.listed(&vec![entry("/in/deep/er", EntryKind::Directory)]);
    assert_eq!(expect_list(walk.next_action()), "/in/deep/er");
    walk.listed(&vec![entry("/in/deep/er/c.geojson", EntryKind::File)]);
    assert_eq!(expect_list(walk.next_action()), "/in/sub");
    walk.listed(&Vec::new());
    assert!(matches!(walk.next_action(), WalkAction::Finish));
    let mut paths = walk.into_paths().unwrap();
    paths.sort();
    assert_eq!(
        paths,
        vec![
            "/in/a.geojson".to_string(),
            "/in/b.geojson".to_string(),
            "/in/deep/er/c.geojson".to_string(),
        ]
    );
}

#[test]
fn empty_directory_has_no_files() {
    let mut walk = Walk::new("/in", EntryKind::Directory);
    assert_eq!(expect_list(walk.next_action()), "/in");
    walk.listed(&Vec::new());
    assert!(matches!(walk.next_action(), WalkAction::Finish));
    assert!(walk.into_paths().unwrap().is_empty());
}

#[test]
fn unreadable_directory_ends_the_walk() {
    let mut walk = Walk::new("/in", EntryKind::Directory);
    walk.next_action();
    walk.listed(&vec![
        entry("/in/a.geojson", EntryKind::File),
        entry("/in/locked", EntryKind::Directory),
    ]);
    assert_eq!(expect_list(walk.next_action()), "/in/locked");
    walk.unreadable("/in/locked: permission denied".to_string());
    walk.unreadable("a later failure".to_string());
    assert!(matches!(walk.next_action(), WalkAction::Finish));
    match walk.into_paths() {
        Err(WalkError::Unreadable(text)) => assert_eq!(text, "/in/locked: permission denied"),
        other => panic!("expected an unreadable directory, got {:?}", other),
    }
}

#[test]
fn walk_with_directories_left_has_no_list_yet() {
    let walk = Walk::new("/in", EntryKind::Directory);
    assert!(matches!(walk.into_paths(), Err(WalkError::Unfinished)));
    let mut walk = Walk::new("/in", EntryKind::Directory);
    walk.next_action();
    walk.listed(&vec![entry("/in/sub", EntryKind::Directory)]);
    assert!(matches!(walk.into_paths(), Err(WalkError::Unfinished)));
}
