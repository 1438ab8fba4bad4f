use serve_once::tracker::CompletionTracker;
use serve_once::tracker::MatchOutcome;

fn listing(names: &[&str]) -> Vec<String> {
    names.iter().map(|name| name.to_string()).collect()
}

fn tracker_of(names: &[&str]) -> CompletionTracker {
    let mut tracker = CompletionTracker::new();
    tracker.initialize(listing(names));
    tracker
}

#[test]
fn new_tracker_has_nothing_pending() {
    let tracker = CompletionTracker::new();
    assert!(tracker.is_empty());
    assert_eq!(tracker.len(), 0);
    assert_eq!(tracker.pending(), Vec::<String>::new());
}

#[test]
fn initialize_holds_the_listing_in_order() {
    let tracker = tracker_of(&["b.txt", "a.txt", "c d.txt"]);
    assert_eq!(tracker.len(), 3);
    assert!(!tracker.is_empty());
    assert_eq!(tracker.pending(), listing(&["b.txt", "a.txt", "c d.txt"]));
}

#[test]
fn initialize_with_empty_listing_is_empty() {
    let tracker = tracker_of(&[]);
    assert!(tracker.is_empty());
    assert_eq!(tracker.len(), 0);
}

#[test]
fn initialize_replaces_what_was_pending() {
    let mut tracker = tracker_of(&["old.txt"]);
    tracker.initialize(listing(&["x", "y"]));
    assert_eq!(tracker.pending(), listing(&["x", "y"]));
}

#[test]
fn observe_removes_a_pending_name_once() {
    let mut tracker = tracker_of(&["a.txt", "b.txt"]);
    assert_eq!(tracker.observe("a.txt"), MatchOutcome::Removed);
    assert_eq!(tracker.len(), 1);
    assert_eq!(tracker.pending(), listing(&["b.txt"]));
    assert_eq!(tracker.observe("a.txt"), MatchOutcome::NotFound);
    assert_eq!(tracker.len(), 1);
    assert_eq!(tracker.pending(), listing(&["b.txt"]));
}

#[test]
fn observe_of_absent_name_changes_nothing() {
    let mut tracker = tracker_of(&["a.txt", "b.txt"]);
    assert_eq!(tracker.observe("c.txt"), MatchOutcome::NotFound);
    assert_eq!(tracker.len(), 2);
    assert_eq!(tracker.pending(), listing(&["a.txt", "b.txt"]));
}

#[test]
fn observe_on_empty_set_finds_nothing() {
    let mut tracker = CompletionTracker::new();
    assert_eq!(tracker.observe("a.txt"), MatchOutcome::NotFound);
    assert!(tracker.is_empty());
}

#[test]
fn observe_takes_only_the_first_of_equal_names() {
    let mut tracker = tracker_of(&["x", "dup", "y", "dup", "z"]);
    assert_eq!(tracker.observe("dup"), MatchOutcome::Removed);
    assert_eq!(tracker.pending(), listing(&["x", "y", "dup", "z"]));
    assert_eq!(tracker.observe("dup"), MatchOutcome::Removed);
    assert_eq!(tracker.pending(), listing(&["x", "y", "z"]));
    assert_eq!(tracker.observe("dup"), MatchOutcome::NotFound);
    assert_eq!(tracker.pending(), listing(&["x", "y", "z"]));
}

#[test]
fn observe_compares_names_exactly() {
    let mut tracker = tracker_of(&["a.txt"]);
    assert_eq!(tracker.observe("A.txt"), MatchOutcome::NotFound);
    assert_eq!(tracker.observe("a.txt "), MatchOutcome::NotFound);
    assert_eq!(tracker.observe("a"), MatchOutcome::NotFound);
    assert_eq!(tracker.observe(""), MatchOutcome::NotFound);
    assert_eq!(tracker.len(), 1);
    assert_eq!(tracker.observe("a.txt"), MatchOutcome::Removed);
    assert!(tracker.is_empty());
}

#[test]
fn observe_removes_last_and_middle_entries() {
    let mut tracker = tracker_of(&["a", "b", "c"]);
    assert_eq!(tracker.observe("c"), MatchOutcome::Removed);
    assert_eq!(tracker.pending(), listing(&["a", "b"]));
    let mut tracker = tracker_of(&["a", "b", "c"]);
    assert_eq!(tracker.observe("b"), MatchOutcome::Removed);
    assert_eq!(tracker.pending(), listing(&["a", "c"]));
}

#[test]
fn pending_set_never_grows() {
    let mut tracker = tracker_of(&["a", "b", "c"]);
    let mut before = tracker.len();
    for name in ["q", "b", "b", "a", "zz", "c", "c", "a"] {
        tracker.observe(name);
        let after = tracker.len();
        assert!(after <= before);
        assert!(before - after <= 1);
        before = after;
    }
    assert!(tracker.is_empty());
}

#[test]
fn empty_stays_empty() {
    let mut tracker = tracker_of(&["only"]);
    assert_eq!(tracker.observe("only"), MatchOutcome::Removed);
    assert!(tracker.is_empty());
    for name in ["only", "other", ""] {
        assert_eq!(tracker.observe(name), MatchOutcome::NotFound);
        assert!(tracker.is_empty());
    }
}

#[test]
fn set_runs_empty_when_each_file_was_fetched() {
    let mut tracker = tracker_of(&["a", "b", "c"]);
    for name in ["c", "a"] {
        tracker.observe(name);
        assert!(!tracker.is_empty());
    }
    tracker.observe("b");
    assert!(tracker.is_empty());
}

#[test]
fn names_with_wide_characters_are_tracked() {
    let mut tracker = tracker_of(&["caf\u{e9}.txt", "\u{65e5}\u{672c}.txt"]);
    assert_eq!(tracker.observe("cafe.txt"), MatchOutcome::NotFound);
    assert_eq!(tracker.observe("\u{65e5}\u{672c}.txt"), MatchOutcome::Removed);
    assert_eq!(tracker.pending(), listing(&["caf\u{e9}.txt"]));
}
