//! Scroll position arithmetic for an output viewport.

use vstd::prelude::*;

verus! {

/// A direction for one scrolling step.
pub enum ScrollDirection {
    Up,
    Down,
    PageUp,
    PageDown,
    Top,
    Bottom,
}

/// The scroll position of an output window, and whether it should follow new
/// content to the bottom.
pub struct ScrollState {
    /// Current scroll position; 0 is the top.
    pub position: usize,
    /// Whether to jump to the bottom when new content arrives.
    pub auto_scroll: bool,
}

/// The furthest a viewport of `view` lines can scroll into `content` lines.
pub open spec fn max_scroll(content: int, view: int) -> int {
    if content >= view {
        content - view
    } else {
        0
    }
}

/// Where one scrolling step lands, clamped to `[0, max_scroll]` from above
/// and to zero from below.
pub open spec fn scroll_target(
    direction: ScrollDirection,
    position: int,
    content: int,
    view: int,
) -> int {
    let max = max_scroll(content, view);
    match direction {
        ScrollDirection::Up => if position >= 1 {
            position - 1
        } else {
            0
        },
        ScrollDirection::Down => if position + 1 <= max {
            position + 1
        } else {
            max
        },
        ScrollDirection::PageUp => if position >= view {
            position - view
        } else {
            0
        },
        ScrollDirection::PageDown => if position + view <= max {
            position + view
        } else {
            max
        },
        ScrollDirection::Top => 0,
        ScrollDirection::Bottom => max,
    }
}

impl ScrollState {
    /// A state at the top with auto-scroll enabled.
    pub fn new() -> (r: ScrollState)
        ensures
            r.position == 0,
            r.auto_scroll,
    {
        ScrollState { position: 0, auto_scroll: true }
    }

    /// Flip whether the viewport follows new content.
    pub fn toggle_auto_scroll(&mut self)
        ensures
            final(self).auto_scroll == !old(self).auto_scroll,
            final(self).position == old(self).position,
    {
        self.auto_scroll = !self.auto_scroll;
    }

    /// Take one scrolling step within content of the given height.
    pub fn scroll(&mut self, direction: ScrollDirection, content_height: usize, view_height: usize)
        ensures
            final(self).auto_scroll == old(self).auto_scroll,
            final(self).position == scroll_target(
                direction,
                old(self).position as int,
                content_height as int,
                view_height as int,
            ),
    {
        let max: usize = if content_height >= view_height {
            content_height - view_height
        } else {
            0
        };
        match direction {
            ScrollDirection::Up => {
                self.position = if self.position >= 1 {
                    self.position - 1
                } else {
                    0
                };
            },
            ScrollDirection::Down => {
                self.position = if self.position < max {
                    self.position + 1
                } else {
                    max
                };
            },
            ScrollDirection::PageUp => {
                self.position = if self.position >= view_height {
                    self.position - view_height
                } else {
                    0
                };
            },
            ScrollDirection::PageDown => {
                self.position = if self.position <= max && max - self.position >= view_height {
                    self.position + view_height
                } else {
                    max
                };
            },
            ScrollDirection::Top => {
                self.position = 0;
            },
            ScrollDirection::Bottom => {
                self.position = max;
            },
        }
    }

    /// Follow new content to the bottom, when auto-scroll is on and there is
    /// new content.
    pub fn update_auto_scroll(
        &mut self,
        content_height: usize,
        view_height: usize,
        has_new_content: bool,
    )
        ensures
            final(self).auto_scroll == old(self).auto_scroll,
            final(self).position == if old(self).auto_scroll && has_new_content {
                max_scroll(content_height as int, view_height as int)
            } else {
                old(self).position as int
            },
    {
        if self.auto_scroll && has_new_content {
            self.position = if content_height >= view_height {
                content_height - view_height
            } else {
                0
            };
        }
    }
}

} // verus!
