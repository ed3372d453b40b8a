//! The scroll position of one channel: either following the newest line or
//! parked at a line that the user scrolled to.

use vstd::prelude::*;

verus! {

/// The mathematical scroll state: whether the view is parked, and where.
pub struct ScrollModel {
    pub enabled: bool,
    pub offset: nat,
}

impl ScrollModel {
    /// The state that follows the newest line.
    pub open spec fn tracking() -> ScrollModel {
        ScrollModel { enabled: false, offset: 0 }
    }

    /// The line that is shown as current in a buffer of `len` lines.
    pub open spec fn visible(self, len: nat) -> nat {
        if self.enabled {
            self.offset
        } else {
            len
        }
    }

    /// Scrolling by `magnitude` lines towards older lines: a view that was
    /// following the newest line is parked at `len` first.
    pub open spec fn up(self, magnitude: nat, len: nat) -> ScrollModel {
        let start = self.visible(len);
        ScrollModel {
            enabled: true,
            offset: if start >= magnitude {
                (start - magnitude) as nat
            } else {
                0
            },
        }
    }

    /// Scrolling by `magnitude` lines towards newer lines: nothing happens to
    /// a view that follows the newest line, and a parked view that reaches
    /// `len` follows it again.
    pub open spec fn down(self, magnitude: nat, len: nat) -> ScrollModel {
        if !self.enabled {
            self
        } else if self.offset + magnitude >= len {
            ScrollModel { enabled: false, offset: len }
        } else {
            ScrollModel { enabled: true, offset: self.offset + magnitude }
        }
    }

    /// One scroll event: a positive `delta` goes up, any other goes down, by
    /// the absolute value of `delta`.
    pub open spec fn scrolled(self, delta: int, len: nat) -> ScrollModel {
        if delta > 0 {
            self.up(delta as nat, len)
        } else {
            self.down((-delta) as nat, len)
        }
    }

    /// A run of downward scrolls, one after the other.
    pub open spec fn down_all(self, magnitudes: Seq<nat>, len: nat) -> ScrollModel
        decreases magnitudes.len(),
    {
        if magnitudes.len() == 0 {
            self
        } else {
            self.down(magnitudes[0], len).down_all(magnitudes.drop_first(), len)
        }
    }
}

/// The sum of a run of magnitudes.
pub open spec fn total(magnitudes: Seq<nat>) -> nat
    decreases magnitudes.len(),
{
    if magnitudes.len() == 0 {
        0
    } else {
        magnitudes[0] + total(magnitudes.drop_first())
    }
}

/// Scrolling up from a view that follows the newest line and then down by
/// the same magnitude follows the newest line again, and shows line `len`.
pub proof fn lemma_scroll_round_trip(s: ScrollModel, magnitude: nat, len: nat)
    requires
        !s.enabled,
    ensures
        !s.up(magnitude, len).down(magnitude, len).enabled,
        s.up(magnitude, len).down(magnitude, len).offset == len,
        s.up(magnitude, len).down(magnitude, len).visible(len) == len,
        magnitude > 0 ==> s.scrolled(magnitude as int, len).scrolled(-(magnitude as int), len)
            == s.up(magnitude, len).down(magnitude, len),
{
}

/// Scrolling up by at least as many lines as lie above the current one parks
/// the view at line 0, whatever the state before. The largest delta,
/// `i32::MAX`, does so in every buffer of up to `i32::MAX` lines.
pub proof fn lemma_scroll_up_to_oldest(s: ScrollModel, magnitude: nat, len: nat)
    requires
        s.visible(len) <= magnitude,
    ensures
        s.up(magnitude, len) == (ScrollModel { enabled: true, offset: 0 }),
{
}

/// The largest delta jumps to the oldest line, and its negative back to
/// the newest, in every buffer of up to `i32::MAX` lines.
pub proof fn lemma_jump_to_extreme(s: ScrollModel, len: nat)
    requires
        len <= i32::MAX,
        s.enabled ==> s.offset <= len,
    ensures
        s.scrolled(i32::MAX as int, len) == (ScrollModel { enabled: true, offset: 0 }),
        !s.scrolled(-(i32::MAX as int), len).enabled,
        s.scrolled(-(i32::MAX as int), len).visible(len) == len,
{
}

/// A view that follows the newest line stays so under any run of downward
/// scrolls.
pub proof fn lemma_down_all_keeps_tracking(s: ScrollModel, magnitudes: Seq<nat>, len: nat)
    requires
        !s.enabled,
    ensures
        s.down_all(magnitudes, len) == s,
    decreases magnitudes.len(),
{
    if magnitudes.len() > 0 {
        lemma_down_all_keeps_tracking(s, magnitudes.drop_first(), len);
    }
}

/// A run of at least one downward scroll whose magnitudes add up to the
/// distance to the end of the buffer, or more, makes a parked view follow
/// the newest line again.
pub proof fn lemma_scroll_down_reattaches(s: ScrollModel, magnitudes: Seq<nat>, len: nat)
    requires
        s.enabled,
        magnitudes.len() > 0,
        s.offset + total(magnitudes) >= len,
    ensures
        !s.down_all(magnitudes, len).enabled,
        s.down_all(magnitudes, len).offset == len,
        s.down_all(magnitudes, len).visible(len) == len,
    decreases magnitudes.len(),
{
    let first = s.down(magnitudes[0], len);
    let rest = magnitudes.drop_first();
    if !first.enabled {
        lemma_down_all_keeps_tracking(first, rest, len);
    } else if rest.len() == 0 {
        assert(total(rest) == 0);
    } else {
        lemma_scroll_down_reattaches(first, rest, len);
    }
}

/// After a jump to the oldest line, downward scrolls that add up to the
/// length of the buffer or more return to following the newest line.
pub proof fn lemma_jump_up_then_down(s: ScrollModel, jump: nat, magnitudes: Seq<nat>, len: nat)
    requires
        s.visible(len) <= jump,
        magnitudes.len() > 0,
        total(magnitudes) >= len,
    ensures
        s.up(jump, len).offset == 0,
        !s.up(jump, len).down_all(magnitudes, len).enabled,
        s.up(jump, len).down_all(magnitudes, len).visible(len) == len,
{
    lemma_scroll_up_to_oldest(s, jump, len);
    lemma_scroll_down_reattaches(s.up(jump, len), magnitudes, len);
}

/// The absolute value of a scroll delta.
pub open spec fn magnitude_of(scroll: i32) -> nat {
    if scroll < 0 {
        (-(scroll as int)) as nat
    } else {
        scroll as nat
    }
}

/// The absolute value of a scroll delta, which always fits in 32 bits.
pub fn magnitude(scroll: i32) -> (r: u32)
    ensures
        r == magnitude_of(scroll),
{
    if scroll >= 0 {
        scroll as u32
    } else if scroll == i32::MIN {
        0x8000_0000u32
    } else {
        (-scroll) as u32
    }
}

/// The scroll position of one channel.
pub struct Offset {
    offset: usize,
    enabled: bool,
}

impl View for Offset {
    type V = ScrollModel;

    closed spec fn view(&self) -> ScrollModel {
        ScrollModel { enabled: self.enabled, offset: self.offset as nat }
    }
}

impl Offset {
    /// A view that follows the newest line.
    pub fn new() -> (r: Self)
        ensures
            r@ == ScrollModel::tracking(),
    {
        Self { offset: 0, enabled: false }
    }

    /// Scrolls towards older lines by the absolute value of `scroll`, in a
    /// buffer of `trace_len` lines, and parks the view.
    pub fn scroll_up(&mut self, scroll: i32, trace_len: usize)
        ensures
            final(self)@ == old(self)@.up(magnitude_of(scroll), trace_len as nat),
    {
        if !self.enabled {
            self.offset = trace_len;
            self.enabled = true;
        }
        let magnitude: u32 = magnitude(scroll);
        if magnitude as u64 >= self.offset as u64 {
            self.offset = 0;
        } else {
            self.offset = self.offset - magnitude as usize;
        }
    }

    /// Scrolls a parked view towards newer lines by the absolute value of
    /// `scroll`, in a buffer of `trace_len` lines. At the end the view
    /// follows the newest line again.
    pub fn scroll_down(&mut self, scroll: i32, trace_len: usize)
        ensures
            final(self)@ == old(self)@.down(magnitude_of(scroll), trace_len as nat),
    {
        if !self.enabled {
            return ;
        }
        let magnitude: u32 = magnitude(scroll);
        if self.offset >= trace_len || magnitude as u64 >= (trace_len - self.offset) as u64 {
            self.offset = trace_len;
            self.enabled = false;
        } else {
            self.offset = self.offset + magnitude as usize;
        }
    }

    /// The line that is shown as current in a buffer of `trace_len` lines.
    pub fn offset(&self, trace_len: usize) -> (r: usize)
        ensures
            r == self@.visible(trace_len as nat),
    {
        if self.enabled {
            self.offset
        } else {
            trace_len
        }
    }

    /// Whether the view is parked away from the newest line.
    pub fn is_enabled(&self) -> (r: bool)
        ensures
            r == self@.enabled,
    {
        self.enabled
    }
}

} // verus!
