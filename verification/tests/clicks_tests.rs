use get_paper::clicks::{ClickTracker, DOUBLE_CLICK_INTERVAL_NANOS};

#[test]
fn same_item_twice_within_half_a_second_opens_it() {
    let mut t = ClickTracker::new();
    assert!(t.can_take("PastPapers/a.pdf"));
    assert!(!t.press("PastPapers/a.pdf", 1_000));
    assert!(t.press("PastPapers/a.pdf", 1_000 + DOUBLE_CLICK_INTERVAL_NANOS));
    assert_eq!(DOUBLE_CLICK_INTERVAL_NANOS, 500_000_000);
}

#[test]
fn a_slow_second_press_opens_nothing() {
    let mut t = ClickTracker::new();
    assert!(!t.press("a", 0));
    assert!(!t.press("a", DOUBLE_CLICK_INTERVAL_NANOS + 1));
    assert!(!t.press("a", DOUBLE_CLICK_INTERVAL_NANOS + 2));
    assert!(t.press("a", DOUBLE_CLICK_INTERVAL_NANOS + 3));
}

#[test]
fn another_item_starts_over() {
    let mut t = ClickTracker::new();
    assert!(!t.press("a", 0));
    assert!(!t.press("b", 10));
    assert!(t.press("b", 20));
}

#[test]
fn clearing_forgets_the_press() {
    let mut t = ClickTracker::new();
    assert!(!t.press("a", 0));
    t.clear();
    assert!(!t.press("a", 10));
    assert!(t.press("a", 20));
}

#[test]
fn a_clock_that_went_back_counts_as_no_time() {
    let mut t = ClickTracker::new();
    assert!(!t.press("a", 1_000_000_000));
    assert!(t.press("a", 5));
}

#[test]
fn an_empty_path_on_a_cleared_tracker_cannot_be_taken() {
    let mut t = ClickTracker::new();
    assert!(!t.can_take(""));
    assert!(!t.press("a", 0));
    assert!(t.can_take(""));
}
