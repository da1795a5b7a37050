use kernel_core::keyboard::history::{History, CAPACITY};

#[test]
fn recording_skips_empty_lines() {
    let mut h = History::new();
    h.record("");
    assert_eq!(h.recall_prev(""), None);
}

#[test]
fn recording_skips_only_a_duplicate_of_the_last_entry() {
    let mut h = History::new();
    h.record("a");
    h.record("a"); // consecutive duplicate: skipped
    h.record("b");
    h.record("a"); // not consecutive (last is "b"): kept

    assert_eq!(h.recall_prev(""), Some("a"));
    assert_eq!(h.recall_prev(""), Some("b"));
    assert_eq!(h.recall_prev(""), Some("a"));
    assert_eq!(h.recall_prev(""), None); // oldest entry: no further back
}

#[test]
fn eviction_drops_the_oldest_entry_once_full() {
    let mut h = History::new();
    for i in 0..CAPACITY + 1 {
        h.record(&format!("{i}"));
    }
    // The oldest ("0") was evicted; the newest (CAPACITY) is still there.
    assert_eq!(h.recall_prev(""), Some(format!("{CAPACITY}").as_str()));
    for _ in 0..CAPACITY - 2 {
        h.recall_prev("");
    }
    assert_eq!(h.recall_prev(""), Some("1"));
    assert_eq!(h.recall_prev(""), None);
}

#[test]
fn recall_prev_and_next_round_trip_back_to_the_pending_line() {
    let mut h = History::new();
    h.record("first");
    h.record("second");

    assert_eq!(h.recall_prev("typing..."), Some("second"));
    assert_eq!(h.recall_prev("typing..."), Some("first"));
    assert_eq!(h.recall_prev("typing..."), None); // oldest: no-op, still on "first"
    assert_eq!(h.recall_next(), Some("second"));
    assert_eq!(h.recall_next(), Some("typing...")); // past the newest: back to pending
    assert_eq!(h.recall_next(), None); // no recall in progress: no-op
}

#[test]
fn recall_next_with_no_recall_in_progress_is_a_no_op() {
    let mut h = History::new();
    h.record("a");
    assert_eq!(h.recall_next(), None);
}

#[test]
fn only_the_first_recall_prev_of_a_session_saves_the_pending_line() {
    let mut h = History::new();
    h.record("a");
    h.record("b");

    h.recall_prev("original pending");
    h.recall_prev("this text is never seen, recall is already in progress");
    // Walk forward past both entries to confirm the *original* pending text survived, not
    // overwritten by the second recall_prev's argument.
    assert_eq!(h.recall_next(), Some("b"));
    assert_eq!(h.recall_next(), Some("original pending"));
}

#[test]
fn reset_recall_ends_the_session_without_touching_recorded_lines() {
    let mut h = History::new();
    h.record("a");
    h.recall_prev("pending");
    h.reset_recall();
    // A fresh recall starts over, saving whatever's passed now as the new pending line.
    assert_eq!(h.recall_prev("new pending"), Some("a"));
    assert_eq!(h.recall_next(), Some("new pending"));
}

#[test]
fn recall_prev_on_empty_history_is_a_no_op() {
    let mut h = History::new();
    assert_eq!(h.recall_prev("x"), None);
}
