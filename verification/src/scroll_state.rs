//! Per-table interaction state: highlighted row, scroll window, item count.
//!
//! The state owns the policy of which window of rows is visible: the
//! previous window is kept as long as the highlighted row stays inside it,
//! and otherwise the window is shifted just far enough to show the
//! highlighted row, then clamped so it never runs past the row set.

use vstd::prelude::*;
use crate::events::Status;

verus! {

/// Interaction state of one scrollable table.
#[derive(Clone, Copy, Debug, PartialEq, Eq, Structural)]
pub struct ScrollState {
    num_items: usize,
    current_index: usize,
    display_start: usize,
}

/// The window start for a highlighted row `current`, previous start
/// `prev`, `n` items and window height `height`: keep the previous window
/// when it still shows the row, otherwise shift minimally, then clamp to
/// the end of the row set.
pub open spec fn next_display_start(prev: int, current: int, n: int, height: int) -> int {
    if n == 0 || height == 0 {
        0
    } else {
        let shifted = if current < prev {
            current
        } else if current >= prev + height {
            current + 1 - height
        } else {
            prev
        };
        let max_start = if n >= height {
            n - height
        } else {
            0
        };
        if shifted > max_start {
            max_start
        } else {
            shifted
        }
    }
}

impl ScrollState {
    /// The highlighted row is inside the row set (or zero when there are
    /// no rows), and the window start never lies past the highlighted row.
    pub closed spec fn wf(self) -> bool {
        &&& if self.num_items == 0 {
            self.current_index == 0
        } else {
            self.current_index < self.num_items
        }
        &&& self.display_start <= self.current_index
    }

    pub closed spec fn spec_num_items(self) -> int {
        self.num_items as int
    }

    pub closed spec fn spec_current_index(self) -> int {
        self.current_index as int
    }

    pub closed spec fn spec_display_start(self) -> int {
        self.display_start as int
    }

    /// The default state: no items, first row highlighted, window at the
    /// top.
    pub closed spec fn spec_default() -> ScrollState {
        ScrollState { num_items: 0, current_index: 0, display_start: 0 }
    }

    pub fn new() -> (r: ScrollState)
        ensures
            r.wf(),
            r == ScrollState::spec_default(),
            r.spec_num_items() == 0,
            r.spec_current_index() == 0,
            r.spec_display_start() == 0,
    {
        ScrollState { num_items: 0, current_index: 0, display_start: 0 }
    }

    pub fn num_items(&self) -> (r: usize)
        ensures
            r == self.spec_num_items(),
    {
        self.num_items
    }

    pub fn current_index(&self) -> (r: usize)
        ensures
            r == self.spec_current_index(),
    {
        self.current_index
    }

    pub fn display_start(&self) -> (r: usize)
        ensures
            r == self.spec_display_start(),
    {
        self.display_start
    }

    /// Replaces the item count, clamping the highlighted row and window
    /// start into the new row set.
    pub fn set_num_items(&mut self, n: usize)
        requires
            old(self).wf(),
        ensures
            final(self).wf(),
            final(self).spec_num_items() == n,
            final(self).spec_current_index() == if old(self).spec_current_index() < n {
                old(self).spec_current_index()
            } else if n > 0 {
                n - 1
            } else {
                0
            },
            final(self).spec_display_start() == if old(self).spec_display_start() < final(self).spec_current_index() {
                old(self).spec_display_start()
            } else {
                final(self).spec_current_index()
            },
    {
        self.num_items = n;
        if self.current_index >= n {
            self.current_index = if n > 0 {
                n - 1
            } else {
                0
            };
        }
        if self.display_start >= self.current_index {
            self.display_start = self.current_index;
        }
    }

    /// Computes, stores and returns the window start for the given window
    /// height. For any highlighted row `h` in `[0, n)` and any height
    /// `0 < height <= n`, the window `[start, start + height)` contains
    /// `h` and lies inside `[0, n)`.
    pub fn display_start_index(&mut self, height: usize) -> (start: usize)
        requires
            old(self).wf(),
        ensures
            final(self).wf(),
            start as int == next_display_start(
                old(self).spec_display_start(),
                old(self).spec_current_index(),
                old(self).spec_num_items(),
                height as int,
            ),
            final(self).spec_display_start() == start as int,
            final(self).spec_num_items() == old(self).spec_num_items(),
            final(self).spec_current_index() == old(self).spec_current_index(),
            old(self).spec_num_items() > 0 && height > 0 ==> start <= old(self).spec_current_index() < start + height,
            height <= old(self).spec_num_items() ==> start + height <= old(self).spec_num_items(),
    {
        let n = self.num_items;
        let c = self.current_index;
        let prev = self.display_start;
        let start: usize = if n == 0 || height == 0 {
            0
        } else {
            let shifted: usize = if c < prev {
                c
            } else if height <= c && prev <= c - height {
                c - height + 1
            } else {
                prev
            };
            let max_start: usize = if n >= height {
                n - height
            } else {
                0
            };
            if shifted > max_start {
                max_start
            } else {
                shifted
            }
        };
        proof {
            assert(start <= c);
        }
        self.display_start = start;
        start
    }

    /// Highlights the row shown at the one-based visible position
    /// `visual_index` of the current window; positions outside the row set
    /// are ignored.
    pub fn set_visual_index(&mut self, visual_index: usize) -> (r: Status)
        requires
            old(self).wf(),
        ensures
            final(self).wf(),
            final(self).spec_num_items() == old(self).spec_num_items(),
            final(self).spec_display_start() == old(self).spec_display_start(),
            ({
                let target = old(self).spec_display_start() + visual_index - 1;
                if 1 <= visual_index && target < old(self).spec_num_items() {
                    r == Status::Captured && final(self).spec_current_index() == target
                } else {
                    r == Status::Ignored && final(self).spec_current_index() == old(self).spec_current_index()
                }
            }),
    {
        if visual_index == 0 {
            return Status::Ignored;
        }
        let offset = visual_index - 1;
        if offset < self.num_items - self.display_start {
            self.current_index = self.display_start + offset;
            Status::Captured
        } else {
            Status::Ignored
        }
    }

    /// Moves the highlighted row down by `amount`, clamped to the last
    /// row; reports whether anything changed.
    pub fn move_down(&mut self, amount: usize) -> (r: Status)
        requires
            old(self).wf(),
        ensures
            final(self).wf(),
            final(self).spec_num_items() == old(self).spec_num_items(),
            final(self).spec_display_start() == old(self).spec_display_start(),
            final(self).spec_current_index() == if old(self).spec_num_items() == 0 {
                0
            } else if old(self).spec_current_index() + amount < old(self).spec_num_items() {
                old(self).spec_current_index() + amount
            } else {
                old(self).spec_num_items() - 1
            },
            r == (if final(self).spec_current_index() == old(self).spec_current_index() {
                Status::Ignored
            } else {
                Status::Captured
            }),
    {
        if self.num_items == 0 {
            return Status::Ignored;
        }
        let c = self.current_index;
        let max_index = self.num_items - 1;
        let target = if amount <= max_index - c {
            c + amount
        } else {
            max_index
        };
        self.current_index = target;
        if target == c {
            Status::Ignored
        } else {
            Status::Captured
        }
    }

    /// Moves the highlighted row up by `amount`, clamped to the first row;
    /// reports whether anything changed. The window start is pulled up
    /// with the highlighted row when the row passes above it.
    pub fn move_up(&mut self, amount: usize) -> (r: Status)
        requires
            old(self).wf(),
        ensures
            final(self).wf(),
            final(self).spec_num_items() == old(self).spec_num_items(),
            final(self).spec_current_index() == if amount <= old(self).spec_current_index() {
                old(self).spec_current_index() - amount
            } else {
                0
            },
            final(self).spec_display_start() == if old(self).spec_display_start() <= final(self).spec_current_index() {
                old(self).spec_display_start()
            } else {
                final(self).spec_current_index()
            },
            r == (if final(self).spec_current_index() == old(self).spec_current_index() {
                Status::Ignored
            } else {
                Status::Captured
            }),
    {
        let c = self.current_index;
        let target = if amount <= c {
            c - amount
        } else {
            0
        };
        self.current_index = target;
        if self.display_start > target {
            self.display_start = target;
        }
        if target == c {
            Status::Ignored
        } else {
            Status::Captured
        }
    }
}

} // verus!
