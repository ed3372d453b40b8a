//! The buffer of one channel: a bounded run of raw lines, the fragments that
//! each line was last wrapped into, and the scroll position.

use crate::offset::{Offset, ScrollModel};
use crate::wrap::{fragments, texts, visible_fragments};
use std::collections::VecDeque;
use vstd::prelude::*;

verus! {

/// One raw line and, once it has been shown, its fragments.
pub struct Row {
    log: String,
    lines: Option<Vec<String>>,
}

impl Row {
    /// A line that has not been shown yet.
    pub fn new(log: String) -> (r: Self)
        ensures
            r.text() == log@,
            !r.is_cached(),
    {
        Self { log, lines: None }
    }

    /// The raw text.
    pub closed spec fn text(&self) -> Seq<char> {
        self.log@
    }

    /// Whether fragments are held for the line.
    pub closed spec fn is_cached(&self) -> bool {
        self.lines is Some
    }

    /// The held fragments are those of the text at `width`.
    pub closed spec fn cache_fits(&self, width: u16) -> bool {
        self.lines matches Some(held) ==> texts(held@) == fragments(self.log@, width)
    }
}

/// The mathematical content of a channel buffer.
pub struct ContentView {
    pub name: Seq<char>,
    /// The raw lines, oldest first.
    pub lines: Seq<Seq<char>>,
    /// For each line, whether its fragments are held.
    pub cached: Seq<bool>,
    pub scroll: ScrollModel,
    /// The width of the last pane the buffer was rendered into.
    pub last_width: u16,
    pub max_lines: nat,
    /// How many lines have been wrapped so far, which stops at `u64::MAX`.
    pub recomputed: nat,
}

/// The newest `max_lines` of `lines`, or all of them if they are fewer.
pub open spec fn newest(lines: Seq<Seq<char>>, max_lines: nat) -> Seq<Seq<char>> {
    if lines.len() > max_lines {
        lines.subrange(lines.len() - max_lines, lines.len() as int)
    } else {
        lines
    }
}

/// The rows that a pane of `width` columns shows for `lines`: the fragments
/// of each line, in the order of the lines.
pub open spec fn display_rows(lines: Seq<Seq<char>>, width: u16) -> Seq<Seq<char>>
    decreases lines.len(),
{
    if lines.len() == 0 {
        Seq::empty()
    } else {
        display_rows(lines.drop_last(), width) + fragments(lines.last(), width)
    }
}

/// How many of the first `upto` lines hold no fragments.
pub open spec fn uncached(cached: Seq<bool>, upto: int) -> nat
    decreases upto,
{
    if upto <= 0 {
        0
    } else {
        uncached(cached, upto - 1) + if cached[upto - 1] {
            0nat
        } else {
            1nat
        }
    }
}

/// A counter that stops at `u64::MAX`.
pub open spec fn counted(before: nat, more: nat) -> nat {
    if before + more > u64::MAX {
        u64::MAX as nat
    } else {
        before + more
    }
}

impl ContentView {
    /// A buffer that has just been made for `name`.
    pub open spec fn empty(name: Seq<char>, max_lines: nat) -> ContentView {
        ContentView {
            name,
            lines: Seq::empty(),
            cached: Seq::empty(),
            scroll: ScrollModel::tracking(),
            last_width: 0,
            max_lines,
            recomputed: 0,
        }
    }

    /// The buffer holds no more than `max_lines` lines, and a parked view
    /// stands at one of them or at the end.
    pub open spec fn wf(self) -> bool {
        &&& self.lines.len() <= self.max_lines
        &&& self.cached.len() == self.lines.len()
        &&& self.scroll.enabled ==> self.scroll.offset <= self.lines.len()
        &&& self.recomputed <= u64::MAX
    }

    /// The buffer after `line` has arrived: it is the newest line, and the
    /// oldest one leaves where the buffer would grow past `max_lines`.
    pub open spec fn appended(self, line: Seq<char>) -> ContentView {
        let evict = self.lines.len() + 1 > self.max_lines;
        ContentView {
            lines: newest(self.lines.push(line), self.max_lines),
            cached: if evict {
                self.cached.push(false).drop_first()
            } else {
                self.cached.push(false)
            },
            ..self
        }
    }

    /// The buffer after each of `lines` has arrived in turn.
    pub open spec fn appended_all(self, lines: Seq<Seq<char>>) -> ContentView
        decreases lines.len(),
    {
        if lines.len() == 0 {
            self
        } else {
            self.appended_all(lines.drop_last()).appended(lines.last())
        }
    }

    /// The buffer after one scroll event.
    pub open spec fn scrolled(self, delta: int) -> ContentView {
        ContentView { scroll: self.scroll.scrolled(delta, self.lines.len()), ..self }
    }

    /// The line that is shown as current.
    pub open spec fn visible_offset(self) -> nat {
        self.scroll.visible(self.lines.len())
    }

    /// How many lines a rendering at `width` has to wrap: those that hold no
    /// fragments, or all of them where the width has changed.
    pub open spec fn stale(self, width: u16) -> nat {
        if width == self.last_width {
            uncached(self.cached, self.cached.len() as int)
        } else {
            self.lines.len()
        }
    }

    /// The buffer after it has been rendered at `width`: every line holds its
    /// fragments for that width.
    pub open spec fn rendered(self, width: u16) -> ContentView {
        ContentView {
            cached: Seq::new(self.lines.len(), |i: int| true),
            last_width: width,
            recomputed: counted(self.recomputed, self.stale(width)),
            ..self
        }
    }

    /// The rows that a pane of `width` columns shows.
    pub open spec fn rows(self, width: u16) -> Seq<Seq<char>> {
        display_rows(self.lines, width)
    }

    /// The number behind "Scrolling:", shown while the view is parked away
    /// from the end: the lines between the current one and the end.
    pub open spec fn scrolling(self) -> Option<nat> {
        if self.visible_offset() != self.lines.len() {
            Some((self.lines.len() - self.visible_offset()) as nat)
        } else {
            None
        }
    }
}

/// Among lines that all hold their fragments, none is left to wrap.
pub proof fn lemma_all_cached(cached: Seq<bool>, upto: int)
    requires
        upto <= cached.len(),
        forall|i: int| 0 <= i < cached.len() ==> cached[i],
    ensures
        uncached(cached, upto) == 0,
    decreases upto,
{
    if upto > 0 {
        lemma_all_cached(cached, upto - 1);
    }
}

/// However many lines arrive, the buffer never holds more than `max_lines`
/// of them, and it holds exactly the newest ones, in the order in which they
/// came.
pub proof fn lemma_appended_all_keeps_newest(c: ContentView, lines: Seq<Seq<char>>)
    requires
        c.wf(),
    ensures
        c.appended_all(lines).wf(),
        c.appended_all(lines).lines.len() <= c.max_lines,
        c.appended_all(lines).lines == newest(c.lines + lines, c.max_lines),
        c.appended_all(lines).max_lines == c.max_lines,
    decreases lines.len(),
{
    if lines.len() > 0 {
        lemma_appended_all_keeps_newest(c, lines.drop_last());
    }
}

/// Rendering a second time at the same width wraps nothing and shows the
/// same rows.
pub proof fn lemma_render_again_same_width(c: ContentView, width: u16)
    requires
        c.wf(),
    ensures
        c.rendered(width).wf(),
        c.rendered(width).rendered(width).recomputed == c.rendered(width).recomputed,
        c.rendered(width).rendered(width) == c.rendered(width),
        c.rendered(width).rows(width) == c.rows(width),
{
    let once = c.rendered(width);
    lemma_all_cached(once.cached, once.cached.len() as int);
}

/// Rendering at another width wraps every line again, and shows the rows of
/// the new width.
pub proof fn lemma_render_other_width(c: ContentView, first: u16, second: u16)
    requires
        c.wf(),
        first != second,
    ensures
        c.rendered(first).rendered(second).recomputed == counted(
            c.rendered(first).recomputed,
            c.lines.len(),
        ),
        c.rendered(first).rendered(second).last_width == second,
        c.rendered(first).rows(second) == display_rows(c.lines, second),
{
}

/// What is painted for one channel.
#[derive(Debug, PartialEq, Eq)]
pub struct Pane {
    /// The name of the channel, for the title.
    pub title: String,
    /// The fragments of all lines, oldest first.
    pub rows: Vec<String>,
    /// The line that is highlighted and where the scrollbar stands.
    pub offset: usize,
    /// The number of lines in the buffer: the length of the scrollbar.
    pub total: usize,
    /// The number to show behind "Scrolling:", if any.
    pub scrolling: Option<usize>,
    /// Whether the cursor is on this channel.
    pub selected: bool,
}

impl Pane {
    /// A pane shows the name, the lines and the scroll position of a
    /// buffer, and nothing else of it.
    pub proof fn lemma_shows_same(self, content: ContentView, other: ContentView, width: u16, selected: bool)
        requires
            self.shows(content, width, selected),
            other.name == content.name,
            other.lines == content.lines,
            other.scroll == content.scroll,
        ensures
            self.shows(other, width, selected),
    {
    }

    /// The pane is the picture of `content` at `width` columns.
    pub open spec fn shows(self, content: ContentView, width: u16, selected: bool) -> bool {
        &&& self.title@ == content.name
        &&& texts(self.rows@) == content.rows(width)
        &&& self.offset == content.visible_offset()
        &&& self.total == content.lines.len()
        &&& self.scrolling == match content.scrolling() {
            Some(n) => Some(n as usize),
            None => None,
        }
        &&& self.selected == selected
    }
}

/// The buffer of one channel.
pub struct Content {
    name: String,
    lines: VecDeque<Row>,
    offset: Offset,
    last_width: u16,
    max_lines: usize,
    recomputed: u64,
}

impl View for Content {
    type V = ContentView;

    closed spec fn view(&self) -> ContentView {
        ContentView {
            name: self.name@,
            lines: self.lines@.map_values(|row: Row| row.text()),
            cached: self.lines@.map_values(|row: Row| row.is_cached()),
            scroll: self.offset@,
            last_width: self.last_width,
            max_lines: self.max_lines as nat,
            recomputed: self.recomputed as nat,
        }
    }
}

impl Content {
    /// The buffer is within its bounds and every held fragment belongs to
    /// the width that was rendered last.
    pub closed spec fn wf(&self) -> bool {
        &&& self@.wf()
        &&& forall|i: int| 0 <= i < self.lines@.len() ==> (#[trigger] self.lines@[i]).cache_fits(self.last_width)
    }

    /// The model of a well-formed buffer is within its bounds.
    pub proof fn lemma_view_wf(&self)
        requires
            self.wf(),
        ensures
            self@.wf(),
    {
    }

    /// An empty buffer for the channel `name` that keeps up to `max_lines`
    /// lines.
    pub fn new(name: String, max_lines: usize) -> (r: Self)
        ensures
            r.wf(),
            r@ == ContentView::empty(name@, max_lines as nat),
    {
        let r = Self {
            name,
            lines: VecDeque::new(),
            offset: Offset::new(),
            last_width: 0,
            max_lines,
            recomputed: 0,
        };
        proof {
            assert(r@.lines =~= Seq::empty());
            assert(r@.cached =~= Seq::empty());
        }
        r
    }

    /// The name of the channel.
    pub fn name(&self) -> (r: &String)
        ensures
            r@ == self@.name,
    {
        &self.name
    }

    /// The number of lines held.
    pub fn len(&self) -> (r: usize)
        ensures
            r == self@.lines.len(),
    {
        self.lines.len()
    }

    /// A copy of the line at `index`, counted from the oldest.
    pub fn line(&self, index: usize) -> (r: Option<String>)
        ensures
            index < self@.lines.len() ==> r is Some && r.unwrap()@ == self@.lines[index as int],
            index >= self@.lines.len() ==> r is None,
    {
        if index < self.lines.len() {
            Some(self.lines[index].log.clone())
        } else {
            None
        }
    }

    /// How many lines have been wrapped since the buffer was made.
    pub fn recomputed(&self) -> (r: u64)
        ensures
            r == self@.recomputed,
    {
        self.recomputed
    }

    /// Takes in the newest line and lets the oldest go where the buffer is
    /// full.
    pub fn append(&mut self, line: String)
        requires
            old(self).wf(),
        ensures
            final(self).wf(),
            final(self)@ == old(self)@.appended(line@),
    {
        self.lines.push_back(Row::new(line));
        if self.lines.len() > self.max_lines {
            self.lines.pop_front();
        }
        proof {
            assert(self@.lines =~= old(self)@.appended(line@).lines);
            assert(self@.cached =~= old(self)@.appended(line@).cached);
        }
    }

    /// Takes one scroll event: a positive `scroll` goes up towards older
    /// lines, any other goes down towards newer ones.
    pub fn scroll(&mut self, scroll: i32)
        requires
            old(self).wf(),
        ensures
            final(self).wf(),
            final(self)@ == old(self)@.scrolled(scroll as int),
    {
        let len = self.lines.len();
        if scroll > 0 {
            self.offset.scroll_up(scroll, len);
        } else {
            self.offset.scroll_down(scroll, len);
        }
    }

    /// The line that is shown as current: where the view is parked, or the
    /// length of the buffer while it follows the newest line.
    pub fn offset(&self) -> (r: usize)
        ensures
            r == self@.visible_offset(),
    {
        self.offset.offset(self.lines.len())
    }

    /// Renders the buffer for a pane of `width` columns. A line is wrapped
    /// only where it holds no fragments or the width differs from that of
    /// the last rendering; afterwards every line holds its fragments for
    /// `width`.
    pub fn render_content(&mut self, selected: bool, width: u16) -> (pane: Pane)
        requires
            old(self).wf(),
        ensures
            final(self).wf(),
            final(self)@ == old(self)@.rendered(width),
            pane.shows(old(self)@, width, selected),
    {
        let offset = self.offset();
        let trace_len = self.lines.len();
        let usable = self.last_width == width;
        let ghost before = self.lines@;
        let ghost logs = self@.lines;
        let ghost start = self.recomputed as nat;
        let mut rows: Vec<String> = Vec::new();
        let mut i: usize = 0;
        while i < trace_len
            invariant
                i <= trace_len,
                trace_len == before.len(),
                self.lines@.len() == trace_len,
                logs == before.map_values(|row: Row| row.text()),
                usable == (old(self).last_width == width),
                forall|j: int| 0 <= j < before.len() ==> (#[trigger] before[j]).cache_fits(old(self).last_width),
                forall|j: int| 0 <= j < trace_len - i ==> self.lines@[j] == before[i + j],
                forall|j: int|
                    trace_len - i <= j < trace_len ==> {
                        &&& (#[trigger] self.lines@[j]).text() == logs[j - (trace_len - i)]
                        &&& self.lines@[j].is_cached()
                        &&& self.lines@[j].cache_fits(width)
                    },
                texts(rows@) == display_rows(logs.subrange(0, i as int), width),
                self.recomputed as nat == counted(
                    start,
                    if usable {
                        uncached(before.map_values(|row: Row| row.is_cached()), i as int)
                    } else {
                        i as nat
                    },
                ),
                self.name == old(self).name,
                self.offset == old(self).offset,
                self.max_lines == old(self).max_lines,
                self.last_width == old(self).last_width,
            decreases trace_len - i,
        {
            let taken = self.lines.pop_front();
            let mut row = taken.unwrap();
            if !(usable && row.lines.is_some()) {
                row.lines = Some(visible_fragments(row.log.as_str(), width));
                if self.recomputed < u64::MAX {
                    self.recomputed = self.recomputed + 1;
                }
            }
            match &row.lines {
                Some(held) => {
                    copy_onto(&mut rows, held);
                },
                None => {},
            }
            proof {
                assert(logs.subrange(0, i as int + 1).drop_last() =~= logs.subrange(0, i as int));
            }
            self.lines.push_back(row);
            i = i + 1;
            proof {
                assert forall|j: int| trace_len - i <= j < trace_len implies {
                    &&& (#[trigger] self.lines@[j]).text() == logs[j - (trace_len - i)]
                    &&& self.lines@[j].is_cached()
                    &&& self.lines@[j].cache_fits(width)
                } by {}
            }
        }
        self.last_width = width;
        proof {
            assert(logs.subrange(0, trace_len as int) =~= logs);
            assert(self@.lines =~= old(self)@.rendered(width).lines);
            assert(self@.cached =~= old(self)@.rendered(width).cached);
        }
        let scrolling = if offset != trace_len {
            Some(trace_len - offset)
        } else {
            None
        };
        Pane { title: self.name.clone(), rows, offset, total: trace_len, scrolling, selected }
    }
}

/// Appends a copy of each string of `more` to `rows`.
fn copy_onto(rows: &mut Vec<String>, more: &Vec<String>)
    ensures
        texts(final(rows)@) == texts(old(rows)@) + texts(more@),
{
    let n = more.len();
    let mut i: usize = 0;
    while i < n
        invariant
            i <= n,
            n == more@.len(),
            texts(rows@) == texts(old(rows)@) + texts(more@.subrange(0, i as int)),
        decreases n - i,
    {
        let ghost held = rows@;
        rows.push(more[i].clone());
        proof {
            assert(texts(held.push(more@[i as int])) =~= texts(held).push(more@[i as int]@));
        }
        i = i + 1;
    }
}

} // verus!
