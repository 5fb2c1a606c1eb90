use batch_convert::depth::DepthRange;
use batch_convert::error::TraversalError;
use batch_convert::extension::ExtensionSet;
use batch_convert::walk::{EntryKind, Found, SourceEntry, Visit, WalkFilter};

fn filter(extensions: &[&str], min: usize, max: usize) -> WalkFilter {
    let owned: Vec<String> = extensions.iter().map(|e| e.to_string()).collect();
    WalkFilter {
        range: DepthRange::from_bounds(min, max).unwrap(),
        extensions: ExtensionSet::new(&owned).unwrap(),
    }
}

fn found(path: &str, depth: usize, kind: EntryKind) -> Found {
    Found { path: path.to_string(), depth, kind }
}

fn file(path: &str, depth: usize) -> Visit {
    Visit::Entry(found(path, depth, EntryKind::File))
}

fn dir(path: &str, depth: usize) -> Visit {
    Visit::Entry(found(path, depth, EntryKind::Directory))
}

fn paths(entries: &[SourceEntry]) -> Vec<String> {
    entries.iter().map(|e| e.path().to_string()).collect()
}

#[test]
fn an_entry_knows_its_path_and_its_format() {
    let entry = SourceEntry::new("in/Photo.JPG".to_string()).unwrap();
    assert_eq!(entry.path(), "in/Photo.JPG");
    assert_eq!(entry.format(), "jpg");
}

#[test]
fn there_is_no_entry_for_a_path_without_an_extension() {
    assert!(SourceEntry::new("in/photo".to_string()).is_none());
    assert!(SourceEntry::new("in/.jpg".to_string()).is_none());
    assert!(SourceEntry::new("in.jpg/".to_string()).is_none());
}

#[test]
fn a_file_of_a_source_format_inside_the_range_is_accepted() {
    let rule = filter(&["jpg"], 1, 2);
    assert!(rule.accepts(&found("in/a.jpg", 1, EntryKind::File)));
    assert!(rule.accepts(&found("in/sub/a.JPG", 2, EntryKind::File)));
}

#[test]
fn a_file_outside_the_range_is_not_accepted() {
    let rule = filter(&["jpg"], 1, 2);
    assert!(!rule.accepts(&found("a.jpg", 0, EntryKind::File)));
    assert!(!rule.accepts(&found("in/x/y/a.jpg", 3, EntryKind::File)));
}

#[test]
fn a_file_of_another_format_is_not_accepted() {
    let rule = filter(&["jpg"], 0, 9);
    assert!(!rule.accepts(&found("in/a.png", 1, EntryKind::File)));
    assert!(!rule.accepts(&found("in/a", 1, EntryKind::File)));
}

#[test]
fn a_directory_is_never_accepted() {
    let rule = filter(&["jpg"], 0, 9);
    assert!(!rule.accepts(&found("in/album.jpg", 1, EntryKind::Directory)));
}

#[test]
fn a_link_is_accepted_by_its_own_name_and_never_entered() {
    let rule = filter(&["jpg"], 0, 9);
    assert!(rule.accepts(&found("in/link.jpg", 1, EntryKind::Symlink)));
    assert!(!rule.descends(&found("in/link.jpg", 1, EntryKind::Symlink)));
    assert!(!rule.descends(&found("in/linked_dir", 1, EntryKind::Symlink)));
    assert!(rule.keeps(&found("in/link.jpg", 1, EntryKind::Symlink)));
    assert!(!rule.keeps(&found("in/linked_dir", 1, EntryKind::Symlink)));
}

#[test]
fn a_directory_is_entered_while_its_content_is_not_too_deep() {
    let rule = filter(&["jpg"], 1, 2);
    assert!(rule.descends(&found("in", 0, EntryKind::Directory)));
    assert!(rule.descends(&found("in/sub", 1, EntryKind::Directory)));
    assert!(!rule.descends(&found("in/sub/deep", 2, EntryKind::Directory)));
    assert!(!rule.descends(&found("in/a.jpg", 1, EntryKind::File)));
}

#[test]
fn what_is_neither_accepted_nor_entered_is_dropped() {
    let rule = filter(&["jpg"], 1, 2);
    assert!(rule.keeps(&found("in/a.jpg", 1, EntryKind::File)));
    assert!(rule.keeps(&found("in/sub", 1, EntryKind::Directory)));
    assert!(!rule.keeps(&found("in/a.png", 1, EntryKind::File)));
    assert!(!rule.keeps(&found("in/sub/deep", 2, EntryKind::Directory)));
    assert!(!rule.keeps(&found("in/socket", 1, EntryKind::Other)));
}

#[test]
fn the_source_for_an_accepted_entry() {
    let rule = filter(&["jpg"], 0, 9);
    let entry = rule.source_for(&found("in/a.JPG", 1, EntryKind::File)).unwrap();
    assert_eq!(entry.path(), "in/a.JPG");
    assert_eq!(entry.format(), "jpg");
    assert!(rule.source_for(&found("in/a.png", 1, EntryKind::File)).is_none());
    assert!(rule.source_for(&found("in/a.jpg", 10, EntryKind::File)).is_none());
}

#[test]
fn ten_of_fifteen_files_are_sources() {
    let rule = filter(&["jpg"], 0, usize::MAX);
    let mut visits = vec![dir("in", 0)];
    for i in 0..10 {
        visits.push(file(&format!("in/photo{i}.jpg"), 1));
    }
    for i in 0..5 {
        visits.push(file(&format!("in/drawing{i}.png"), 1));
    }
    let sources = rule.collect(&visits).unwrap();
    assert_eq!(sources.len(), 10);
    let expected: Vec<String> = (0..10).map(|i| format!("in/photo{i}.jpg")).collect();
    assert_eq!(paths(&sources), expected);
}

#[test]
fn a_walk_yields_its_sources_in_the_order_of_its_reports() {
    let rule = filter(&["jpg", "png"], 1, 2);
    let visits = vec![
        dir("in", 0),
        file("in/c.png", 1),
        file("in/readme.txt", 1),
        dir("in/sub.jpg", 1),
        file("in/sub.jpg/a.JPG", 2),
        file("in/sub.jpg/deep/b.jpg", 3),
        Visit::Unreadable { depth: 2 },
        file("in/b.jpg", 1),
    ];
    let sources = rule.collect(&visits).unwrap();
    assert_eq!(paths(&sources), vec!["in/c.png", "in/sub.jpg/a.JPG", "in/b.jpg"]);
    assert_eq!(sources[1].format(), "jpg");
}

#[test]
fn a_file_given_as_the_root_is_at_depth_zero() {
    let visits = vec![file("a.jpg", 0)];
    assert_eq!(paths(&filter(&["jpg"], 0, 0).collect(&visits).unwrap()), vec!["a.jpg"]);
    assert!(filter(&["jpg"], 1, 1).collect(&visits).unwrap().is_empty());
}

#[test]
fn an_empty_directory_yields_nothing() {
    let rule = filter(&["jpg"], 0, usize::MAX);
    assert!(rule.collect(&vec![dir("in", 0)]).unwrap().is_empty());
    assert!(rule.collect(&Vec::new()).unwrap().is_empty());
}

#[test]
fn an_unreadable_root_fails_the_walk() {
    let rule = filter(&["jpg"], 0, usize::MAX);
    assert_eq!(
        rule.collect(&vec![Visit::Unreadable { depth: 0 }]).err(),
        Some(TraversalError {})
    );
    let visits = vec![file("in/a.jpg", 1), Visit::Unreadable { depth: 0 }, file("in/b.jpg", 1)];
    assert_eq!(rule.collect(&visits).err(), Some(TraversalError {}));
}

#[test]
fn what_cannot_be_read_below_the_root_is_passed_over() {
    let rule = filter(&["jpg"], 0, usize::MAX);
    let visits = vec![
        dir("in", 0),
        Visit::Unreadable { depth: 1 },
        file("in/a.jpg", 1),
        Visit::Unreadable { depth: 3 },
    ];
    assert_eq!(paths(&rule.collect(&visits).unwrap()), vec!["in/a.jpg"]);
}
