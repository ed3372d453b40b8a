//! The mathematical model of the viewer: channels, columns of stacked tabs,
//! the open tab of each column and the cursor, with the rules that change
//! them.

use crate::content::ContentView;
use vstd::prelude::*;

verus! {

/// The side towards which the cursor or a tab moves.
#[derive(Clone, Copy, Debug, PartialEq, Eq, Structural)]
pub enum Direction {
    Left,
    Right,
}

/// The state of the viewer as plain mathematics.
pub struct StateView {
    /// The channel buffers, in the order in which their names first came.
    pub channels: Seq<ContentView>,
    /// The columns from left to right, each a stack of channels from top to
    /// bottom.
    pub columns: Seq<Seq<int>>,
    /// For each column, the place in its stack of the tab that is open.
    pub open: Map<int, int>,
    /// The column and the place of the selected tab.
    pub cursor: (int, int),
    /// The capacity that every channel buffer is made with.
    pub max_lines: nat,
}

impl StateView {
    /// The state before any line has arrived.
    pub open spec fn initial(max_lines: nat) -> StateView {
        StateView {
            channels: Seq::empty(),
            columns: Seq::empty(),
            open: Map::empty(),
            cursor: (0, 0),
            max_lines,
        }
    }

    /// Whether `(c, p)` is a place of the layout.
    pub open spec fn valid_place(self, c: int, p: int) -> bool {
        0 <= c < self.columns.len() && 0 <= p < self.columns[c].len()
    }

    /// The channel whose tab stands at `(c, p)`.
    pub open spec fn at(self, c: int, p: int) -> int {
        self.columns[c][p]
    }

    /// The columns are numbered from 0 without a gap, none is empty, and
    /// exactly they have an open tab, which is a place of their stack.
    pub open spec fn dense(self) -> bool {
        &&& forall|c: int| #[trigger] self.open.contains_key(c) <==> 0 <= c < self.columns.len()
        &&& forall|c: int|
            0 <= c < self.columns.len() ==> (#[trigger] self.columns[c]).len() > 0 && 0
                <= self.open[c] < self.columns[c].len()
    }

    /// Every tab shows a channel that exists.
    pub open spec fn tabs_in_range(self) -> bool {
        forall|c: int, p: int|
            self.valid_place(c, p) ==> 0 <= #[trigger] self.at(c, p) < self.channels.len()
    }

    /// Whether some tab shows channel `id`.
    pub open spec fn has_tab(self, id: int) -> bool {
        exists|c: int, p: int| self.valid_place(c, p) && #[trigger] self.at(c, p) == id
    }

    /// No two tabs show the same channel.
    pub open spec fn tabs_distinct(self) -> bool {
        forall|ca: int, pa: int, cb: int, pb: int|
            #![trigger self.at(ca, pa), self.at(cb, pb)]
            self.valid_place(ca, pa) && self.valid_place(cb, pb) && self.at(ca, pa) == self.at(
                cb,
                pb,
            ) ==> ca == cb && pa == pb
    }

    /// Every channel but `id` has a tab.
    pub open spec fn all_placed_but(self, id: int) -> bool {
        forall|other: int|
            0 <= other < self.channels.len() && other != id ==> #[trigger] self.has_tab(other)
    }

    /// Every channel has exactly one tab.
    pub open spec fn placed_once(self) -> bool {
        &&& self.tabs_distinct()
        &&& forall|id: int| 0 <= id < self.channels.len() ==> #[trigger] self.has_tab(id)
    }

    /// The cursor stands on a tab, and that tab is the open one of its
    /// column.
    pub open spec fn cursor_on_open_tab(self) -> bool {
        &&& self.valid_place(self.cursor.0, self.cursor.1)
        &&& self.open[self.cursor.0] == self.cursor.1
    }

    /// No two channels have the same name, and each is within its bounds.
    pub open spec fn channels_wf(self) -> bool {
        &&& forall|i: int|
            0 <= i < self.channels.len() ==> (#[trigger] self.channels[i]).wf()
                && self.channels[i].max_lines == self.max_lines
        &&& forall|i: int, j: int|
            0 <= i < self.channels.len() && 0 <= j < self.channels.len() && i != j ==> (
            #[trigger] self.channels[i]).name != (#[trigger] self.channels[j]).name
    }

    /// Whether the layout is still empty.
    pub open spec fn is_empty(self) -> bool {
        self.columns.len() == 0
    }

    /// The layout is dense, every channel has exactly one tab, and the
    /// cursor is on the open tab of its column, or at the first place while
    /// the layout is empty.
    pub open spec fn wf(self) -> bool {
        &&& self.dense()
        &&& self.tabs_in_range()
        &&& self.placed_once()
        &&& self.channels_wf()
        &&& if self.is_empty() {
            self.channels.len() == 0 && self.cursor == (0int, 0int)
        } else {
            self.cursor_on_open_tab()
        }
    }

    /// Whether a channel is called `name`.
    pub open spec fn has_channel(self, name: Seq<char>) -> bool {
        exists|i: int| 0 <= i < self.channels.len() && (#[trigger] self.channels[i]).name == name
    }

    /// The channel that is called `name`.
    pub open spec fn channel_named(self, name: Seq<char>) -> int {
        choose|i: int| 0 <= i < self.channels.len() && (#[trigger] self.channels[i]).name == name
    }

    /// The channel under the cursor.
    pub open spec fn selected_channel(self) -> int {
        self.at(self.cursor.0, self.cursor.1)
    }

    /// The last place of the layout: the bottom of the rightmost column.
    pub open spec fn last_place(self) -> (int, int) {
        (self.columns.len() - 1, self.columns.last().len() - 1)
    }

    /// The state after the tab at `(c, p)` has become the selected one and
    /// the open one of its column.
    pub open spec fn selected(self, c: int, p: int) -> StateView {
        StateView { cursor: (c, p), open: self.open.insert(c, p), ..self }
    }

    /// The state after a line has arrived for the channel `name`. A name
    /// that is new gets a buffer and a tab at the bottom of column 0; the
    /// first channel ever is also selected and opened.
    pub open spec fn added(self, line: Seq<char>, name: Seq<char>) -> StateView {
        if self.has_channel(name) {
            let i = self.channel_named(name);
            StateView { channels: self.channels.update(i, self.channels[i].appended(line)), ..self }
        } else {
            let id = self.channels.len() as int;
            let fresh = ContentView::empty(name, self.max_lines).appended(line);
            if self.is_empty() {
                StateView {
                    channels: self.channels.push(fresh),
                    columns: seq![seq![id]],
                    open: self.open.insert(0, 0),
                    cursor: (0, 0),
                    ..self
                }
            } else {
                StateView {
                    channels: self.channels.push(fresh),
                    columns: self.columns.update(0, self.columns[0].push(id)),
                    ..self
                }
            }
        }
    }

    /// Whether a step of the cursor towards `direction` changes nothing: to
    /// the left at the first place, and to the right at the last.
    pub open spec fn step_is_idle(self, direction: Direction) -> bool {
        match direction {
            Direction::Left => self.cursor == (0int, 0int),
            Direction::Right => self.cursor == self.last_place(),
        }
    }

    /// The state after the cursor has stepped to the neighbouring tab:
    /// within its column, or over the edge into the next column. At the
    /// first and at the last place nothing changes.
    pub open spec fn selection_moved(self, direction: Direction) -> StateView {
        let (c, p) = self.cursor;
        match direction {
            Direction::Left => if c == 0 && p == 0 {
                self
            } else if p == 0 {
                self.selected(c - 1, self.columns[c - 1].len() - 1)
            } else {
                self.selected(c, p - 1)
            },
            Direction::Right => if self.cursor == self.last_place() {
                self
            } else if p == self.columns[c].len() - 1 {
                self.selected(c + 1, 0)
            } else {
                self.selected(c, p + 1)
            },
        }
    }

    /// The open tabs after column `c` has gone: those to its right are
    /// found one column further left.
    pub open spec fn open_without_column(self, c: int) -> Map<int, int> {
        Map::new(
            |k: int|
                if k < c {
                    self.open.contains_key(k)
                } else {
                    self.open.contains_key(k + 1)
                },
            |k: int|
                if k < c {
                    self.open[k]
                } else {
                    self.open[k + 1]
                },
        )
    }

    /// The layout after the tab at `(c, p)` has been taken out. A column
    /// that loses its only tab goes, and the columns to its right move one
    /// to the left; otherwise the tab above the one taken becomes the open
    /// one of the column. The cursor is left where it was.
    pub open spec fn tab_removed(self, c: int, p: int) -> StateView {
        if self.columns[c].len() == 1 {
            StateView {
                columns: self.columns.remove(c),
                open: self.open_without_column(c),
                ..self
            }
        } else {
            StateView {
                columns: self.columns.update(c, self.columns[c].remove(p)),
                open: self.open.insert(
                    c,
                    if p == 0 {
                        0
                    } else {
                        p - 1
                    },
                ),
                ..self
            }
        }
    }

    /// The layout after a tab for channel `id` has been put at the bottom of
    /// column `c`, or into a new column where `c` is one past the last.
    pub open spec fn tab_stacked(self, c: int, id: int) -> StateView {
        if c < self.columns.len() {
            StateView { columns: self.columns.update(c, self.columns[c].push(id)), ..self }
        } else {
            StateView { columns: self.columns.push(seq![id]), ..self }
        }
    }

    /// The layout after a tab for channel `id` has been put at the bottom of
    /// column `c`, or into a new column where `c` is one past the last, and
    /// has been selected.
    pub open spec fn tab_placed(self, c: int, id: int) -> StateView {
        self.tab_stacked(c, id).selected(
            c,
            if c < self.columns.len() {
                self.columns[c].len() as int
            } else {
                0
            },
        )
    }

    /// The open tabs after a new column has come in as the first: those of
    /// the old columns are found one column further right.
    pub open spec fn open_behind_new_column(self) -> Map<int, int> {
        Map::new(|k: int| self.open.contains_key(k - 1), |k: int| self.open[k - 1])
    }

    /// The layout after a tab for channel `id` has been put into a new first
    /// column and has been selected. The old columns move one to the right.
    pub open spec fn tab_placed_in_front(self, id: int) -> StateView {
        StateView {
            columns: self.columns.insert(0, seq![id]),
            open: self.open_behind_new_column().insert(0, 0),
            cursor: (0, 0),
            ..self
        }
    }

    /// Whether moving the selected tab towards `direction` changes nothing:
    /// where the layout is empty, and where the tab is alone in the column
    /// at that edge of the layout.
    pub open spec fn move_is_idle(self, direction: Direction) -> bool {
        self.is_empty() || (self.columns[self.cursor.0].len() == 1 && match direction {
            Direction::Left => self.cursor.0 == 0,
            Direction::Right => self.cursor.0 == self.columns.len() - 1,
        })
    }

    /// The state after the selected tab has moved to the bottom of the
    /// neighbouring column, where it is selected and open. At either edge of
    /// the layout a new column is made for it.
    pub open spec fn channel_moved(self, direction: Direction) -> StateView {
        let (c, p) = self.cursor;
        let id = self.selected_channel();
        if self.move_is_idle(direction) {
            self
        } else {
            match direction {
                Direction::Left => if c == 0 {
                    self.tab_removed(c, p).tab_placed_in_front(id)
                } else {
                    self.tab_removed(c, p).tab_placed(c - 1, id)
                },
                Direction::Right => self.tab_removed(c, p).tab_placed(
                    if self.columns[c].len() == 1 {
                        c
                    } else {
                        c + 1
                    },
                    id,
                ),
            }
        }
    }

    /// Whether a jump of the cursor towards `direction` changes nothing: to
    /// the left in the first column, and to the right in the last.
    pub open spec fn switch_is_idle(self, direction: Direction) -> bool {
        match direction {
            Direction::Left => self.cursor.0 == 0,
            Direction::Right => self.cursor.0 + 1 == self.columns.len(),
        }
    }

    /// The state after the cursor has jumped to the open tab of the
    /// neighbouring column. At the first and at the last column nothing
    /// changes.
    pub open spec fn tab_switched(self, direction: Direction) -> StateView {
        let c = self.cursor.0;
        match direction {
            Direction::Left => if c == 0 {
                self
            } else {
                StateView { cursor: (c - 1, self.open[c - 1]), ..self }
            },
            Direction::Right => if c + 1 == self.columns.len() {
                self
            } else {
                StateView { cursor: (c + 1, self.open[c + 1]), ..self }
            },
        }
    }

    /// The channel whose buffer column `c` shows: that of its open tab.
    pub open spec fn shown_channel(self, c: int) -> int {
        self.at(c, self.open[c])
    }

    /// The names on the tab strip of column `c`, from top to bottom of its
    /// stack.
    pub open spec fn header(self, c: int) -> Seq<Seq<char>> {
        self.columns[c].map_values(|id: int| self.channels[id].name)
    }

    /// The state after column `c` has been rendered with a pane of `width`
    /// columns: the channel that it shows holds its fragments for `width`.
    pub open spec fn tab_rendered(self, c: int, width: u16) -> StateView {
        let id = self.shown_channel(c);
        StateView { channels: self.channels.update(id, self.channels[id].rendered(width)), ..self }
    }

    /// The state after the first `upto` columns have been rendered, from
    /// left to right, each with a pane of its width in `widths`.
    pub open spec fn columns_rendered(self, widths: Seq<u16>, upto: int) -> StateView
        decreases upto,
    {
        if upto <= 0 {
            self
        } else {
            self.columns_rendered(widths, upto - 1).tab_rendered(upto - 1, widths[upto - 1])
        }
    }

    /// The state after a record has come with its routing decision and its
    /// bytes: a record without a name is dropped, and so is one whose bytes
    /// are no text.
    pub open spec fn traced(self, name: Option<Seq<char>>, bytes: Seq<u8>) -> StateView {
        match name {
            Some(name) if vstd::utf8::valid_utf8(bytes) => self.added(
                vstd::utf8::decode_utf8(bytes),
                name,
            ),
            _ => self,
        }
    }

    /// The state after the selected channel has taken one scroll event.
    pub open spec fn scrolled(self, delta: int) -> StateView {
        let id = self.selected_channel();
        StateView { channels: self.channels.update(id, self.channels[id].scrolled(delta)), ..self }
    }
}

/// What holds of the tabs of `s` holds of every state with the same columns
/// and as many channels.
proof fn lemma_same_columns(s: StateView, t: StateView)
    requires
        s.tabs_in_range(),
        s.placed_once(),
        t.columns == s.columns,
        t.channels.len() == s.channels.len(),
    ensures
        t.tabs_in_range(),
        t.placed_once(),
{
    assert forall|k: int, q: int| t.valid_place(k, q) implies 0 <= #[trigger] t.at(k, q)
        < t.channels.len() by {
        assert(t.at(k, q) == s.at(k, q));
    }
    assert forall|ca: int, pa: int, cb: int, pb: int|
        #![trigger t.at(ca, pa), t.at(cb, pb)]
        t.valid_place(ca, pa) && t.valid_place(cb, pb) && t.at(ca, pa) == t.at(
            cb,
            pb,
        ) implies ca == cb && pa == pb by {
        assert(s.at(ca, pa) == s.at(cb, pb));
    }
    assert forall|id: int| 0 <= id < t.channels.len() implies #[trigger] t.has_tab(id) by {
        assert(s.has_tab(id));
        let (c, p) = choose|c: int, p: int| s.valid_place(c, p) && #[trigger] s.at(c, p) == id;
        assert(t.valid_place(c, p) && t.at(c, p) == id);
    }
}

/// A channel may be replaced by one of the same name and capacity that is
/// within its bounds.
pub proof fn lemma_channel_replaced_wf(s: StateView, id: int, channel: ContentView)
    requires
        s.wf(),
        0 <= id < s.channels.len(),
        channel.wf(),
        channel.name == s.channels[id].name,
        channel.max_lines == s.max_lines,
    ensures
        (StateView { channels: s.channels.update(id, channel), ..s }).wf(),
{
    let t = StateView { channels: s.channels.update(id, channel), ..s };
    lemma_same_columns(s, t);
}

/// Rendering a column leaves the layout as it is and keeps every channel
/// within its bounds.
pub proof fn lemma_tab_rendered_wf(s: StateView, c: int, width: u16)
    requires
        s.wf(),
        0 <= c < s.columns.len(),
    ensures
        s.tab_rendered(c, width).wf(),
        0 <= s.shown_channel(c) < s.channels.len(),
        s.tab_rendered(c, width).columns == s.columns,
        s.tab_rendered(c, width).open == s.open,
        s.tab_rendered(c, width).cursor == s.cursor,
{
    assert(s.columns[c].len() > 0);
    let id = s.shown_channel(c);
    crate::content::lemma_render_again_same_width(s.channels[id], width);
    lemma_channel_replaced_wf(s, id, s.channels[id].rendered(width));
}

/// Rendering columns leaves the layout as it is and changes no name, line
/// or scroll position of a channel.
pub proof fn lemma_columns_rendered_wf(s: StateView, widths: Seq<u16>, upto: int)
    requires
        s.wf(),
        upto <= s.columns.len(),
        upto <= widths.len(),
    ensures
        s.columns_rendered(widths, upto).wf(),
        s.columns_rendered(widths, upto).columns == s.columns,
        s.columns_rendered(widths, upto).open == s.open,
        s.columns_rendered(widths, upto).cursor == s.cursor,
        s.columns_rendered(widths, upto).channels.len() == s.channels.len(),
        forall|id: int|
            0 <= id < s.channels.len() ==> {
                let after = #[trigger] s.columns_rendered(widths, upto).channels[id];
                &&& after.name == s.channels[id].name
                &&& after.lines == s.channels[id].lines
                &&& after.scroll == s.channels[id].scroll
            },
    decreases upto,
{
    if upto > 0 {
        lemma_columns_rendered_wf(s, widths, upto - 1);
        lemma_tab_rendered_wf(s.columns_rendered(widths, upto - 1), upto - 1, widths[upto - 1]);
    }
}

/// A line that arrives leaves the layout dense and the cursor on the open
/// tab of its column.
pub proof fn lemma_added_wf(s: StateView, line: Seq<char>, name: Seq<char>)
    requires
        s.wf(),
    ensures
        s.added(line, name).wf(),
        !s.added(line, name).is_empty(),
{
    let t = s.added(line, name);
    if s.has_channel(name) {
        let i = s.channel_named(name);
        lemma_channel_replaced_wf(s, i, s.channels[i].appended(line));
    } else {
        let id = s.channels.len() as int;
        let base = StateView { channels: t.channels, ..s };
        assert(base.tabs_in_range()) by {
            assert forall|c: int, p: int| base.valid_place(c, p) implies 0 <= #[trigger] base.at(
                c,
                p,
            ) < base.channels.len() by {
                assert(base.at(c, p) == s.at(c, p));
            }
        }
        assert(base.tabs_distinct()) by {
            assert forall|ca: int, pa: int, cb: int, pb: int|
                #![trigger base.at(ca, pa), base.at(cb, pb)]
                base.valid_place(ca, pa) && base.valid_place(cb, pb) && base.at(ca, pa) == base.at(
                    cb,
                    pb,
                ) implies ca == cb && pa == pb by {
                assert(s.at(ca, pa) == s.at(cb, pb));
            }
        }
        assert(!base.has_tab(id)) by {
            if base.has_tab(id) {
                let (c, p) = choose|c: int, p: int|
                    base.valid_place(c, p) && #[trigger] base.at(c, p) == id;
                assert(s.at(c, p) == id);
            }
        }
        assert(base.all_placed_but(id)) by {
            assert forall|other: int|
                0 <= other < base.channels.len() && other != id implies #[trigger] base.has_tab(
                other,
            ) by {
                assert(s.has_tab(other));
                let (c, p) = choose|c: int, p: int|
                    s.valid_place(c, p) && #[trigger] s.at(c, p) == other;
                assert(base.valid_place(c, p) && base.at(c, p) == other);
            }
        }
        lemma_tab_stacked_placed_once(base, 0, id);
        assert(base.tab_stacked(0, id).columns =~= t.columns);
        lemma_same_columns(base.tab_stacked(0, id), t);
    }
}

/// A step of the cursor leaves the layout dense and the cursor on the open
/// tab of its column.
pub proof fn lemma_selection_moved_wf(s: StateView, direction: Direction)
    requires
        s.wf(),
        !s.is_empty(),
    ensures
        s.selection_moved(direction).wf(),
        s.selection_moved(direction).columns == s.columns,
        s.selection_moved(direction).channels == s.channels,
{
    lemma_same_columns(s, s.selection_moved(direction));
}

/// A jump of the cursor to the neighbouring column leaves the layout as it
/// is and the cursor on the open tab of its column.
pub proof fn lemma_tab_switched_wf(s: StateView, direction: Direction)
    requires
        s.wf(),
        !s.is_empty(),
    ensures
        s.tab_switched(direction).wf(),
        s.tab_switched(direction).columns == s.columns,
        s.tab_switched(direction).open == s.open,
        s.tab_switched(direction).channels == s.channels,
{
    let c = s.cursor.0;
    let t = s.tab_switched(direction);
    lemma_same_columns(s, t);
    if c > 0 {
        assert(s.columns[c - 1].len() > 0);
    }
    if c + 1 < s.columns.len() {
        assert(s.columns[c + 1].len() > 0);
    }
    assert(t.dense());
}

/// A scroll event leaves the layout as it is and keeps every channel within
/// its bounds.
pub proof fn lemma_scrolled_wf(s: StateView, delta: int)
    requires
        s.wf(),
        !s.is_empty(),
    ensures
        s.scrolled(delta).wf(),
        s.scrolled(delta).columns == s.columns,
        s.scrolled(delta).open == s.open,
        s.scrolled(delta).cursor == s.cursor,
{
    let id = s.selected_channel();
    lemma_channel_replaced_wf(s, id, s.channels[id].scrolled(delta));
}

/// The place in `s` of the tab that stands at `(k, q)` once the tab at
/// `(c, p)` has been taken out.
pub open spec fn place_before_removal(s: StateView, c: int, p: int, k: int, q: int) -> (int, int) {
    if s.columns[c].len() == 1 {
        if k < c {
            (k, q)
        } else {
            (k + 1, q)
        }
    } else if k == c && q >= p {
        (k, q + 1)
    } else {
        (k, q)
    }
}

/// The place, once the tab at `(c, p)` has been taken out, of the tab that
/// stood at another place `(k, q)` of `s`.
pub open spec fn place_after_removal(s: StateView, c: int, p: int, k: int, q: int) -> (int, int) {
    if s.columns[c].len() == 1 {
        if k < c {
            (k, q)
        } else {
            (k - 1, q)
        }
    } else if k == c && q > p {
        (k, q - 1)
    } else {
        (k, q)
    }
}

/// Taking a tab out moves the other tabs without losing or doubling one.
proof fn lemma_tab_removed_places(s: StateView, c: int, p: int)
    requires
        s.dense(),
        s.valid_place(c, p),
    ensures
        forall|k: int, q: int| #[trigger]
            s.tab_removed(c, p).valid_place(k, q) ==> {
                let (ko, qo) = place_before_removal(s, c, p, k, q);
                &&& s.valid_place(ko, qo)
                &&& (ko, qo) != (c, p)
                &&& s.at(ko, qo) == s.tab_removed(c, p).at(k, q)
                &&& place_after_removal(s, c, p, ko, qo) == (k, q)
            },
        forall|k: int, q: int| #[trigger]
            s.valid_place(k, q) && (k, q) != (c, p) ==> {
                let (kn, qn) = place_after_removal(s, c, p, k, q);
                &&& s.tab_removed(c, p).valid_place(kn, qn)
                &&& s.tab_removed(c, p).at(kn, qn) == s.at(k, q)
            },
{
}

/// Taking a tab out leaves the layout dense: no column is left empty and
/// none lacks its open tab. The channel of the tab has no tab left, and
/// every other channel keeps its one tab.
pub proof fn lemma_tab_removed_dense(s: StateView, c: int, p: int)
    requires
        s.dense(),
        s.tabs_in_range(),
        s.placed_once(),
        s.channels_wf(),
        s.valid_place(c, p),
    ensures
        s.tab_removed(c, p).dense(),
        s.tab_removed(c, p).tabs_in_range(),
        s.tab_removed(c, p).channels_wf(),
        s.tab_removed(c, p).tabs_distinct(),
        s.tab_removed(c, p).all_placed_but(s.at(c, p)),
        !s.tab_removed(c, p).has_tab(s.at(c, p)),
        s.tab_removed(c, p).columns.len() == if s.columns[c].len() == 1 {
            s.columns.len() - 1
        } else {
            s.columns.len() as int
        },
{
    let t = s.tab_removed(c, p);
    let moved = s.at(c, p);
    lemma_tab_removed_places(s, c, p);
    if s.columns[c].len() > 1 {
        assert forall|k: int| 0 <= k < t.columns.len() implies (#[trigger] t.columns[k]).len() > 0
            && 0 <= t.open[k] < t.columns[k].len() by {}
    }
    assert forall|other: int|
        0 <= other < t.channels.len() && other != moved implies #[trigger] t.has_tab(other) by {
        assert(s.has_tab(other));
        let (k, q) = choose|k: int, q: int| s.valid_place(k, q) && #[trigger] s.at(k, q) == other;
        let (kn, qn) = place_after_removal(s, c, p, k, q);
        assert(t.valid_place(kn, qn) && t.at(kn, qn) == other);
    }
    assert(!t.has_tab(moved)) by {
        if t.has_tab(moved) {
            let (k, q) = choose|k: int, q: int|
                t.valid_place(k, q) && #[trigger] t.at(k, q) == moved;
            let (ko, qo) = place_before_removal(s, c, p, k, q);
            assert(s.valid_place(ko, qo) && s.at(ko, qo) == s.at(c, p));
        }
    }
}

/// Putting a tab for a channel that has none at the bottom of a column, or
/// into a new last column, gives every channel exactly one tab where all
/// others had theirs.
proof fn lemma_tab_stacked_placed_once(s: StateView, c: int, id: int)
    requires
        s.tabs_in_range(),
        s.tabs_distinct(),
        s.all_placed_but(id),
        !s.has_tab(id),
        0 <= c <= s.columns.len(),
        0 <= id < s.channels.len(),
    ensures
        s.tab_stacked(c, id).tabs_in_range(),
        s.tab_stacked(c, id).placed_once(),
{
    let t = s.tab_stacked(c, id);
    let fresh = if c < s.columns.len() {
        (c, s.columns[c].len() as int)
    } else {
        (c, 0int)
    };
    assert(t.valid_place(fresh.0, fresh.1) && t.at(fresh.0, fresh.1) == id);
    assert forall|k: int, q: int| t.valid_place(k, q) implies 0 <= #[trigger] t.at(k, q)
        < t.channels.len() by {
        if (k, q) != fresh {
            assert(0 <= s.at(k, q) < s.channels.len());
        }
    }
    assert forall|ca: int, pa: int, cb: int, pb: int|
        #![trigger t.at(ca, pa), t.at(cb, pb)]
        t.valid_place(ca, pa) && t.valid_place(cb, pb) && t.at(ca, pa) == t.at(
            cb,
            pb,
        ) implies ca == cb && pa == pb by {
        if (ca, pa) != fresh && (cb, pb) != fresh {
            assert(s.at(ca, pa) == s.at(cb, pb));
        } else if (ca, pa) != fresh {
            assert(s.valid_place(ca, pa) && s.at(ca, pa) == id);
        } else if (cb, pb) != fresh {
            assert(s.valid_place(cb, pb) && s.at(cb, pb) == id);
        }
    }
    assert forall|other: int| 0 <= other < t.channels.len() implies #[trigger] t.has_tab(
        other,
    ) by {
        if other != id {
            assert(s.has_tab(other));
            let (k, q) = choose|k: int, q: int|
                s.valid_place(k, q) && #[trigger] s.at(k, q) == other;
            assert(t.valid_place(k, q) && t.at(k, q) == other);
        }
    }
}

/// Putting a tab at the bottom of a column, or into a new last column,
/// leaves the layout dense, with the cursor on the new tab and that tab
/// open.
pub proof fn lemma_tab_placed_wf(s: StateView, c: int, id: int)
    requires
        s.dense(),
        s.tabs_in_range(),
        s.tabs_distinct(),
        s.all_placed_but(id),
        !s.has_tab(id),
        s.channels_wf(),
        0 <= c <= s.columns.len(),
        0 <= id < s.channels.len(),
    ensures
        s.tab_placed(c, id).wf(),
        !s.tab_placed(c, id).is_empty(),
        s.tab_placed(c, id).selected_channel() == id,
{
    let t = s.tab_placed(c, id);
    lemma_tab_stacked_placed_once(s, c, id);
    lemma_same_columns(s.tab_stacked(c, id), t);
}

/// Putting a tab for a channel that has none into a new first column leaves
/// the layout dense, with the cursor on the new tab and that tab open.
pub proof fn lemma_tab_placed_in_front_wf(s: StateView, id: int)
    requires
        s.dense(),
        s.tabs_in_range(),
        s.tabs_distinct(),
        s.all_placed_but(id),
        !s.has_tab(id),
        s.channels_wf(),
        0 <= id < s.channels.len(),
    ensures
        s.tab_placed_in_front(id).wf(),
        !s.tab_placed_in_front(id).is_empty(),
        s.tab_placed_in_front(id).selected_channel() == id,
{
    let t = s.tab_placed_in_front(id);
    assert(t.valid_place(0, 0) && t.at(0, 0) == id);
    assert forall|k: int, q: int| t.valid_place(k, q) implies 0 <= #[trigger] t.at(k, q)
        < t.channels.len() by {
        if k != 0 {
            assert(0 <= s.at(k - 1, q) < s.channels.len());
        }
    }
    assert forall|ca: int, pa: int, cb: int, pb: int|
        #![trigger t.at(ca, pa), t.at(cb, pb)]
        t.valid_place(ca, pa) && t.valid_place(cb, pb) && t.at(ca, pa) == t.at(
            cb,
            pb,
        ) implies ca == cb && pa == pb by {
        if ca != 0 && cb != 0 {
            assert(s.at(ca - 1, pa) == s.at(cb - 1, pb));
        } else if ca != 0 {
            assert(s.valid_place(ca - 1, pa) && s.at(ca - 1, pa) == id);
        } else if cb != 0 {
            assert(s.valid_place(cb - 1, pb) && s.at(cb - 1, pb) == id);
        }
    }
    assert forall|other: int| 0 <= other < t.channels.len() implies #[trigger] t.has_tab(
        other,
    ) by {
        if other != id {
            assert(s.has_tab(other));
            let (k, q) = choose|k: int, q: int|
                s.valid_place(k, q) && #[trigger] s.at(k, q) == other;
            assert(t.valid_place(k + 1, q) && t.at(k + 1, q) == other);
        }
    }
}

/// Moving the selected tab to the neighbouring column leaves the layout
/// dense and the cursor on the moved tab, which is the open one of its
/// column and shows the same channel as before.
pub proof fn lemma_channel_moved_wf(s: StateView, direction: Direction)
    requires
        s.wf(),
        !s.is_empty(),
    ensures
        s.channel_moved(direction).wf(),
        !s.channel_moved(direction).is_empty(),
        s.channel_moved(direction).selected_channel() == s.selected_channel(),
        s.channel_moved(direction).channels == s.channels,
{
    let (c, p) = s.cursor;
    if !s.move_is_idle(direction) {
        lemma_tab_removed_dense(s, c, p);
        let id = s.selected_channel();
        match direction {
            Direction::Left => {
                if c == 0 {
                    lemma_tab_placed_in_front_wf(s.tab_removed(c, p), id);
                } else {
                    lemma_tab_placed_wf(s.tab_removed(c, p), c - 1, id);
                }
            },
            Direction::Right => {
                let target = if s.columns[c].len() == 1 {
                    c
                } else {
                    c + 1
                };
                lemma_tab_placed_wf(s.tab_removed(c, p), target, id);
            },
        }
    }
}

/// One operation on the state.
pub enum Operation {
    /// A line arrives for a channel.
    AddChannel { line: Seq<char>, name: Seq<char> },
    /// The cursor steps to the neighbouring tab.
    MoveSelection(Direction),
    /// The selected tab moves to the neighbouring column.
    MoveChannel(Direction),
    /// The cursor jumps to the neighbouring column.
    SwitchTab(Direction),
    /// The selected channel scrolls.
    Scroll(int),
    /// A column is rendered at a width.
    Render { column: int, width: u16 },
}

impl StateView {
    /// The state after one operation. An operation that needs a tab under
    /// the cursor leaves an empty layout as it is, and so does the rendering
    /// of a column that does not exist.
    pub open spec fn applied(self, operation: Operation) -> StateView {
        match operation {
            Operation::AddChannel { line, name } => self.added(line, name),
            _ if self.is_empty() => self,
            Operation::MoveSelection(direction) => self.selection_moved(direction),
            Operation::MoveChannel(direction) => self.channel_moved(direction),
            Operation::SwitchTab(direction) => self.tab_switched(direction),
            Operation::Scroll(delta) => self.scrolled(delta),
            Operation::Render { column, width } => if 0 <= column < self.columns.len() {
                self.tab_rendered(column, width)
            } else {
                self
            },
        }
    }

    /// The state after a run of operations, one after the other.
    pub open spec fn applied_all(self, operations: Seq<Operation>) -> StateView
        decreases operations.len(),
    {
        if operations.len() == 0 {
            self
        } else {
            self.applied_all(operations.drop_last()).applied(operations.last())
        }
    }
}

/// Every operation leaves the layout dense and the cursor on the open tab
/// of its column.
pub proof fn lemma_applied_wf(s: StateView, operation: Operation)
    requires
        s.wf(),
    ensures
        s.applied(operation).wf(),
{
    match operation {
        Operation::AddChannel { line, name } => {
            lemma_added_wf(s, line, name);
        },
        _ => {
            if !s.is_empty() {
                match operation {
                    Operation::MoveSelection(direction) => lemma_selection_moved_wf(s, direction),
                    Operation::MoveChannel(direction) => lemma_channel_moved_wf(s, direction),
                    Operation::SwitchTab(direction) => lemma_tab_switched_wf(s, direction),
                    Operation::Scroll(delta) => lemma_scrolled_wf(s, delta),
                    Operation::Render { column, width } => {
                        if 0 <= column < s.columns.len() {
                            lemma_tab_rendered_wf(s, column, width);
                        }
                    },
                    _ => {},
                }
            }
        },
    }
}

/// After any run of operations the columns are numbered from 0 without a
/// gap, none of them is empty, each has an open tab that is a place of its
/// stack, and no other number has one.
pub proof fn lemma_layout_stays_dense(s: StateView, operations: Seq<Operation>)
    requires
        s.wf(),
    ensures
        s.applied_all(operations).wf(),
        forall|c: int|
            #[trigger] s.applied_all(operations).open.contains_key(c) <==> 0 <= c
                < s.applied_all(operations).columns.len(),
        forall|c: int|
            0 <= c < s.applied_all(operations).columns.len() ==> 0 <= (
            #[trigger] s.applied_all(operations).open[c]) < s.applied_all(
                operations,
            ).columns[c].len(),
    decreases operations.len(),
{
    if operations.len() > 0 {
        lemma_layout_stays_dense(s, operations.drop_last());
        lemma_applied_wf(s.applied_all(operations.drop_last()), operations.last());
    }
    let t = s.applied_all(operations);
    assert forall|c: int| 0 <= c < t.columns.len() implies 0 <= (#[trigger] t.open[c])
        < t.columns[c].len() by {
        assert(t.columns[c].len() > 0);
    }
}

/// After any run of operations on a layout that has a tab, the cursor
/// stands on a tab, and that tab is the open one of its column.
pub proof fn lemma_cursor_stays_on_open_tab(s: StateView, operations: Seq<Operation>)
    requires
        s.wf(),
        !s.is_empty(),
    ensures
        !s.applied_all(operations).is_empty(),
        s.applied_all(operations).valid_place(
            s.applied_all(operations).cursor.0,
            s.applied_all(operations).cursor.1,
        ),
        s.applied_all(operations).open[s.applied_all(operations).cursor.0] == s.applied_all(
            operations,
        ).cursor.1,
    decreases operations.len(),
{
    lemma_layout_stays_dense(s, operations);
    if operations.len() > 0 {
        let before = s.applied_all(operations.drop_last());
        lemma_cursor_stays_on_open_tab(s, operations.drop_last());
        lemma_layout_stays_dense(s, operations.drop_last());
        match operations.last() {
            Operation::AddChannel { line, name } => lemma_added_wf(before, line, name),
            Operation::MoveSelection(direction) => lemma_selection_moved_wf(before, direction),
            Operation::MoveChannel(direction) => lemma_channel_moved_wf(before, direction),
            Operation::SwitchTab(direction) => lemma_tab_switched_wf(before, direction),
            Operation::Scroll(delta) => lemma_scrolled_wf(before, delta),
            Operation::Render { column, width } => {
                if 0 <= column < before.columns.len() {
                    lemma_tab_rendered_wf(before, column, width);
                }
            },
        }
    }
}

/// After any run of operations every channel has exactly one tab: no
/// operation loses a channel from the layout or shows it twice.
pub proof fn lemma_channels_keep_one_tab(s: StateView, operations: Seq<Operation>)
    requires
        s.wf(),
    ensures
        s.applied_all(operations).tabs_distinct(),
        forall|id: int|
            0 <= id < s.applied_all(operations).channels.len() ==> #[trigger] s.applied_all(
                operations,
            ).has_tab(id),
{
    lemma_layout_stays_dense(s, operations);
}

/// The state before any line has arrived is well formed, and stays so
/// under any run of operations.
pub proof fn lemma_reachable_wf(max_lines: nat, operations: Seq<Operation>)
    ensures
        StateView::initial(max_lines).wf(),
        StateView::initial(max_lines).applied_all(operations).wf(),
{
    lemma_layout_stays_dense(StateView::initial(max_lines), operations);
}

} // verus!
