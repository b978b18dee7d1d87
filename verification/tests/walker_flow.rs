use video_triage::walk::EntryAction;
use video_triage::walk::Walker;

#[test]
fn ignored_subtree_yields_nothing() {
    // the ignore set holds the canonical path of a subdirectory: the entry
    // is skipped outright, nothing is queued, so the walk never enters it
    let mut w = Walker::new(vec![String::from("/media/library/extras")], 3);
    let action = w.on_entry(
        String::from("extras"),
        Some(&String::from("/media/library/extras")),
        true,
    );
    assert_eq!(action, EntryAction::Ignored);
    assert!(w.next_folder().is_none());
}

#[test]
fn ignored_file_is_skipped_too() {
    let mut w = Walker::new(vec![String::from("/media/skip.mp4")], 3);
    let action = w.on_entry(String::from("skip.mp4"), Some(&String::from("/media/skip.mp4")), false);
    assert_eq!(action, EntryAction::Ignored);
}

#[test]
fn unresolved_canonical_path_is_not_ignored() {
    // the ignore check needs the canonical path; an entry that cannot be
    // resolved is handled normally
    let mut w = Walker::new(vec![String::from("x")], 3);
    let action = w.on_entry(String::from("x"), None, false);
    assert_eq!(action, EntryAction::File);
}

#[test]
fn directories_queue_until_the_depth_bound() {
    let mut w = Walker::new(Vec::new(), 1);
    let action = w.on_entry(String::from("season1"), Some(&String::from("/m/season1")), true);
    assert_eq!(action, EntryAction::DirQueued);
    let f = w.next_folder().unwrap();
    assert_eq!(f.path, "season1");
    assert_eq!(f.depth, 1);

    // at the bound, a directory is neither yielded nor entered
    w.enter(1);
    let action = w.on_entry(String::from("episode-extras"), None, true);
    assert_eq!(action, EntryAction::DirTooDeep);
    assert!(w.next_folder().is_none());
}

#[test]
fn files_are_yielded() {
    let mut w = Walker::new(Vec::new(), 1);
    assert_eq!(w.on_entry(String::from("a.mp4"), None, false), EntryAction::File);
}

#[test]
fn queued_directories_pop_in_reverse_order() {
    let mut w = Walker::new(Vec::new(), 2);
    w.on_entry(String::from("a"), None, true);
    w.on_entry(String::from("b"), None, true);
    assert_eq!(w.next_folder().unwrap().path, "b");
    assert_eq!(w.next_folder().unwrap().path, "a");
    assert!(w.next_folder().is_none());
}

#[test]
fn entering_a_folder_tracks_its_depth() {
    let mut w = Walker::new(Vec::new(), 5);
    w.on_entry(String::from("a"), None, true);
    let f = w.next_folder().unwrap();
    w.enter(f.depth);
    w.on_entry(String::from("a/b"), None, true);
    let g = w.next_folder().unwrap();
    assert_eq!(g.depth, 2);
}
