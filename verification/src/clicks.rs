//! Telling a double click on an item of the file tree from two single
//! clicks: the same item pressed again within half a second.
use vstd::prelude::*;
use vstd::string::*;
use crate::text::{chars_eq, chars_of, string_of};

verus! {

/// How long, in nanoseconds, the second press of a double click may come
/// after the first: half a second.
pub const DOUBLE_CLICK_INTERVAL_NANOS: u64 = 500_000_000;

/// The item pressed last and when, in nanoseconds on the caller's clock.
pub struct ClickTracker {
    selected: String,
    pressed_at: Option<u64>,
}

/// The tracker as plain values.
pub struct ClickView {
    /// The path of the item pressed last; empty when there is none.
    pub selected: Seq<char>,
    /// When it was pressed.
    pub pressed_at: Option<u64>,
}

impl View for ClickTracker {
    type V = ClickView;

    closed spec fn view(&self) -> ClickView {
        ClickView { selected: self.selected@, pressed_at: self.pressed_at }
    }
}

/// A tracker that remembers no press.
pub open spec fn cleared() -> ClickView {
    ClickView { selected: Seq::empty(), pressed_at: None }
}

/// Whether `item` can be taken in state `c`: not where it matches the
/// remembered path while no press is remembered, which is where a press of
/// an item with an empty path finds a cleared tracker.
pub open spec fn takes(c: ClickView, item: Seq<char>) -> bool {
    !(item == c.selected && c.pressed_at is None)
}

/// The tracker after `item` is pressed at `now`, and whether the press
/// completes a double click: it does when the same item was pressed last,
/// at most half a second before (a clock that went back counts as no time);
/// either way the tracker then forgets. A press of another item is
/// remembered.
pub open spec fn press(c: ClickView, item: Seq<char>, now: u64) -> (ClickView, bool) {
    if item == c.selected {
        let t = c.pressed_at->0;
        let elapsed = if now >= t {
            now - t
        } else {
            0
        };
        (cleared(), elapsed <= DOUBLE_CLICK_INTERVAL_NANOS)
    } else {
        (ClickView { selected: item, pressed_at: Some(now) }, false)
    }
}

impl ClickTracker {
    /// A tracker that remembers no press.
    pub fn new() -> (r: ClickTracker)
        ensures
            r@ == cleared(),
    {
        ClickTracker { selected: String::new(), pressed_at: None }
    }

    /// Forgets the press remembered, as when the tree loses focus or the
    /// selection empties.
    pub fn clear(&mut self)
        ensures
            final(self)@ == cleared(),
    {
        self.selected = String::new();
        self.pressed_at = None;
    }

    /// Whether a press of `item` can be taken now.
    pub fn can_take(&self, item: &str) -> (r: bool)
        ensures
            r == takes(self@, item@),
    {
        let a = chars_of(item);
        let b = chars_of(self.selected.as_str());
        !(chars_eq(&a, &b) && self.pressed_at.is_none())
    }

    /// Takes a press of `item` at `now` and tells whether it completes a
    /// double click, so that the item is to be opened.
    pub fn press(&mut self, item: &str, now: u64) -> (r: bool)
        requires
            takes(old(self)@, item@),
        ensures
            (final(self)@, r) == press(old(self)@, item@, now),
    {
        let a = chars_of(item);
        let b = chars_of(self.selected.as_str());
        if chars_eq(&a, &b) {
            let t = match self.pressed_at {
                Some(t) => t,
                None => 0,
            };
            let elapsed = if now >= t {
                now - t
            } else {
                0
            };
            self.clear();
            elapsed <= DOUBLE_CLICK_INTERVAL_NANOS
        } else {
            self.selected = string_of(&a);
            self.pressed_at = Some(now);
            false
        }
    }
}

/// Pressing an item and then pressing it again within half a second
/// completes a double click, where the tracker did not remember that item
/// before; the first press alone never does.
pub proof fn lemma_double_click(c: ClickView, item: Seq<char>, t1: u64, t2: u64)
    requires
        item != c.selected,
        t1 <= t2,
        t2 - t1 <= DOUBLE_CLICK_INTERVAL_NANOS,
    ensures
        !press(c, item, t1).1,
        takes(press(c, item, t1).0, item),
        press(press(c, item, t1).0, item, t2) == (cleared(), true),
{
}

/// Pressing an item again more than half a second later opens nothing.
pub proof fn lemma_slow_second_press(c: ClickView, item: Seq<char>, t1: u64, t2: u64)
    requires
        item != c.selected,
        t1 <= t2,
        t2 - t1 > DOUBLE_CLICK_INTERVAL_NANOS,
    ensures
        press(press(c, item, t1).0, item, t2) == (cleared(), false),
{
}

/// Pressing two different items one after the other opens nothing, and the
/// second is then remembered.
pub proof fn lemma_other_item(c: ClickView, a: Seq<char>, b: Seq<char>, t1: u64, t2: u64)
    requires
        a != c.selected,
        a != b,
    ensures
        press(press(c, a, t1).0, b, t2) == (ClickView { selected: b, pressed_at: Some(t2) }, false),
{
}

} // verus!
