use vstd::prelude::*;

verus! {

/// The offset that means "follow the newest line".
pub const TAIL_SENTINEL: usize = usize::MAX;

/// Scroll position of the message view: an offset (or the tail sentinel) and
/// the scrolling requested since the last frame.
#[derive(Debug)]
pub struct ScrollState {
    pub offset: usize,
    pub pending_delta: i32,
}

/// The top line shown for the last page starting at `max_start`.
pub open spec fn top_of(offset: usize, max_start: usize) -> usize {
    if offset == usize::MAX {
        max_start
    } else if offset <= max_start {
        offset
    } else {
        max_start
    }
}

/// The offset after applying a pending delta (see `ScrollState::apply_pending`).
pub open spec fn offset_after(offset: usize, delta: i32, total: usize, visible: usize) -> usize {
    if total <= visible {
        usize::MAX
    } else {
        let max_start = (total - visible) as usize;
        let current = top_of(offset, max_start);
        let new_top: int = if delta < 0 {
            if current + delta < 0 { 0 } else { current + delta }
        } else {
            if current + delta > max_start { max_start as int } else { current + delta }
        };
        if new_top >= max_start {
            usize::MAX
        } else {
            new_top as usize
        }
    }
}

/// A line count as a scroll amount: its low 32 bits, read as an `i32`.
pub open spec fn scroll_amount(n: usize) -> int {
    (n as i32) as int
}

/// Scrolling `n` lines up and then `n` lines down, or down and then up,
/// gives back the pending scroll it started from; and scrolling down by `a`
/// and then by `b` requests the same as scrolling down by `a + b` at once.
pub proof fn lemma_scroll_up_down(d: i32, n: usize, a: usize, b: usize)
    requires
        i32::MIN <= d - scroll_amount(n) <= i32::MAX,
        i32::MIN <= d + scroll_amount(n) <= i32::MAX,
        a + b <= usize::MAX,
        i32::MIN <= d + scroll_amount(a) <= i32::MAX,
        i32::MIN <= d + scroll_amount(a) + scroll_amount(b) <= i32::MAX,
        i32::MIN <= d + scroll_amount((a + b) as usize) <= i32::MAX,
    ensures
        (d - scroll_amount(n)) + scroll_amount(n) == d,
        (d + scroll_amount(n)) - scroll_amount(n) == d,
        d + scroll_amount(a) + scroll_amount(b) == d + scroll_amount((a + b) as usize),
{
    let x: i32 = a as i32;
    let y: i32 = b as i32;
    let s: usize = (a + b) as usize;
    assert((s as i32) == ((x + y) as i32)) by (bit_vector)
        requires
            s == a + b,
            x == a as i32,
            y == b as i32,
    ;
    assert(((x + y) as i32) == x + y || ((x + y) as i32) == x + y - 0x1_0000_0000int
        || ((x + y) as i32) == x + y + 0x1_0000_0000int) by (bit_vector);
}

impl ScrollState {
    pub fn is_at_tail(&self) -> (r: bool)
        ensures
            r == (self.offset == usize::MAX),
    {
        self.offset == TAIL_SENTINEL
    }

    pub fn resolve_top(&self, max_start: usize) -> (r: usize)
        ensures
            r == top_of(self.offset, max_start),
            r <= max_start,
    {
        if self.offset == TAIL_SENTINEL {
            max_start
        } else if self.offset <= max_start {
            self.offset
        } else {
            max_start
        }
    }

    /// Requests scrolling `n` lines up (the amount taken as an `i32`, that
    /// is its low 32 bits).
    pub fn up(&mut self, n: usize)
        requires
            old(self).pending_delta - scroll_amount(n) >= i32::MIN,
            old(self).pending_delta - scroll_amount(n) <= i32::MAX,
        ensures
            final(self).offset == old(self).offset,
            final(self).pending_delta == old(self).pending_delta - scroll_amount(n),
    {
        self.pending_delta = self.pending_delta - n as i32;
    }

    /// Requests scrolling `n` lines down (the amount taken as an `i32`, that
    /// is its low 32 bits).
    pub fn down(&mut self, n: usize)
        requires
            old(self).pending_delta + scroll_amount(n) >= i32::MIN,
            old(self).pending_delta + scroll_amount(n) <= i32::MAX,
        ensures
            final(self).offset == old(self).offset,
            final(self).pending_delta == old(self).pending_delta + scroll_amount(n),
    {
        self.pending_delta = self.pending_delta + n as i32;
    }

    pub fn to_bottom(&mut self)
        ensures
            final(self).offset == usize::MAX,
            final(self).pending_delta == 0,
    {
        self.offset = TAIL_SENTINEL;
        self.pending_delta = 0;
    }

    /// Applies the requested scrolling to a view of `visible_lines` out of
    /// `total_lines`; reaching the last page switches to following the tail.
    pub fn apply_pending(&mut self, total_lines: usize, visible_lines: usize)
        ensures
            old(self).pending_delta == 0 ==> *final(self) == *old(self),
            old(self).pending_delta != 0 ==> final(self).pending_delta == 0 && final(self).offset
                == offset_after(old(self).offset, old(self).pending_delta, total_lines, visible_lines),
            old(self).pending_delta != 0 && total_lines > visible_lines ==> (final(self).offset == usize::MAX
                || final(self).offset < total_lines - visible_lines),
    {
        let delta = self.pending_delta;
        if delta == 0 {
            return ;
        }
        self.pending_delta = 0;
        if total_lines <= visible_lines {
            self.offset = TAIL_SENTINEL;
            return ;
        }
        let max_start = total_lines - visible_lines;
        let current = self.resolve_top(max_start);
        let new_top: usize = if delta < 0 {
            let up: u64 = if delta == i32::MIN { 2147483648u64 } else { (-delta) as u64 };
            if (current as u64) <= up { 0 } else { current - up as usize }
        } else {
            let d = delta as usize;
            if current < max_start && d < max_start - current { current + d } else { max_start }
        };
        self.offset = if new_top >= max_start {
            TAIL_SENTINEL
        } else {
            new_top
        };
    }
}

/// Mouse selection and drag state of the terminal.
#[derive(Debug)]
pub struct MouseState {
    pub selection: Option<(usize, usize, usize, usize)>,
    pub drag_scroll_pos: Option<(u16, u16)>,
    pub mouse_down_pos: Option<(usize, usize)>,
    pub mouse_down_on_toggle: Option<(usize, usize)>,
}

} // verus!
