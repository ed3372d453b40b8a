//! The state of the viewer and the events that change it.

use crate::content::{Content, ContentView, Pane};
use crate::index::{ContentIndex, Handle, PositionIdex, TabIndex, TypedVec};
use crate::layout::{Direction, StateView};
use crate::wrap::texts;
use std::collections::{BTreeMap, VecDeque};
use vstd::utf8::{decode_utf8, valid_utf8};
use vstd::prelude::*;

verus! {

/// What the consumer of events does after one of them: paint, or wait for
/// the next.
#[derive(Clone, Copy, Debug, PartialEq, Eq, Structural)]
pub enum Action {
    Draw,
    Continue,
}

/// One event for the consumer that owns the state.
#[derive(Debug, PartialEq, Eq)]
pub enum DrawEvent {
    /// Scroll the selected channel: up by a positive number of lines, down
    /// by a negative one.
    Scroll(i32),
    /// Step the cursor to the neighbouring tab.
    ChangeSelect(Direction),
    /// Move the selected tab to the neighbouring column.
    MoveSelect(Direction),
    /// Jump with the cursor to the neighbouring column.
    ChangeTab(Direction),
    /// The bytes of one formatted record; its routing decision waits at the
    /// front of the queue of names.
    Trace(Vec<u8>),
    /// The terminal has a new size.
    Resize,
}

/// What is painted for one column: the tab strip and the pane of the open
/// tab.
#[derive(Debug, PartialEq, Eq)]
pub struct TabFrame {
    /// The names of the stacked channels, from top to bottom.
    pub header: Vec<String>,
    /// The place of the open tab, whose buffer the pane shows.
    pub open: PositionIdex,
    /// The place of the cursor, where it is in this column.
    pub selected: Option<PositionIdex>,
    pub pane: Pane,
}

/// A routing decision as plain text.
pub open spec fn name_model(name: Option<String>) -> Option<Seq<char>> {
    match name {
        Some(name) => Some(name@),
        None => None,
    }
}

/// Whether the state takes `event` while `pending` routing decisions wait:
/// scrolling and every move to the right need a tab under the cursor, and a
/// record needs its routing decision.
pub open spec fn accepts(state: StateView, event: DrawEvent, pending: nat) -> bool {
    match event {
        DrawEvent::Scroll(_) => !state.is_empty(),
        DrawEvent::ChangeSelect(direction) | DrawEvent::MoveSelect(direction) | DrawEvent::ChangeTab(
            direction,
        ) => direction == Direction::Right ==> !state.is_empty(),
        DrawEvent::Trace(_) => pending > 0,
        DrawEvent::Resize => true,
    }
}

/// The state after `event`, where `name` is the routing decision at the
/// front of the queue.
pub open spec fn handled(state: StateView, event: DrawEvent, name: Option<Seq<char>>) -> StateView {
    match event {
        DrawEvent::Scroll(delta) => state.scrolled(delta as int),
        DrawEvent::ChangeSelect(direction) => state.selection_moved(direction),
        DrawEvent::MoveSelect(direction) => state.channel_moved(direction),
        DrawEvent::ChangeTab(direction) => state.tab_switched(direction),
        DrawEvent::Trace(bytes) => state.traced(name, bytes@),
        DrawEvent::Resize => state,
    }
}

/// Whether the screen is painted after `event`.
pub open spec fn paints(state: StateView, event: DrawEvent, name: Option<Seq<char>>) -> bool {
    match event {
        DrawEvent::Scroll(_) => true,
        DrawEvent::ChangeSelect(direction) => !state.step_is_idle(direction),
        DrawEvent::MoveSelect(direction) => !state.move_is_idle(direction),
        DrawEvent::ChangeTab(direction) => !state.switch_is_idle(direction),
        DrawEvent::Trace(bytes) => name is Some && valid_utf8(bytes@),
        DrawEvent::Resize => true,
    }
}

/// The state and the queue of routing decisions after a run of events, one
/// after the other: each record takes the decision at the front of the
/// queue, and no other event touches the queue.
pub open spec fn served(
    state: StateView,
    names: Seq<Option<Seq<char>>>,
    events: Seq<DrawEvent>,
) -> (StateView, Seq<Option<Seq<char>>>)
    decreases events.len(),
{
    if events.len() == 0 {
        (state, names)
    } else {
        let (before, waiting) = served(state, names, events.drop_last());
        (
            handled(before, events.last(), waiting[0]),
            if events.last() is Trace {
                waiting.drop_first()
            } else {
                waiting
            },
        )
    }
}

/// The state after the records with the given bytes have come in turn, the
/// record at place `i` with the routing decision at place `i` of `names`.
pub open spec fn traced_in_order(
    state: StateView,
    names: Seq<Option<Seq<char>>>,
    traces: Seq<Seq<u8>>,
) -> StateView
    decreases traces.len(),
{
    if traces.len() == 0 {
        state
    } else {
        traced_in_order(state, names, traces.drop_last()).traced(
            names[traces.len() - 1],
            traces.last(),
        )
    }
}

/// Records and routing decisions stay paired in order: after a run of
/// records the queue has lost as many decisions from its front as records
/// came, and each record went where the decision at its own place said.
pub proof fn lemma_records_take_decisions_in_order(
    state: StateView,
    names: Seq<Option<Seq<char>>>,
    events: Seq<DrawEvent>,
)
    requires
        events.len() <= names.len(),
        forall|i: int| 0 <= i < events.len() ==> #[trigger] events[i] is Trace,
    ensures
        served(state, names, events).1 == names.subrange(events.len() as int, names.len() as int),
        served(state, names, events).0 == traced_in_order(
            state,
            names,
            events.map_values(|event: DrawEvent| event->Trace_0@),
        ),
    decreases events.len(),
{
    let traces = events.map_values(|event: DrawEvent| event->Trace_0@);
    if events.len() == 0 {
        assert(names.subrange(0, names.len() as int) =~= names);
    } else {
        lemma_records_take_decisions_in_order(state, names, events.drop_last());
        let k = events.len() - 1;
        assert(traces.drop_last() =~= events.drop_last().map_values(
            |event: DrawEvent| event->Trace_0@,
        ));
        assert(events.last() is Trace);
        assert(names.subrange(k, names.len() as int).drop_first() =~= names.subrange(
            k + 1,
            names.len() as int,
        ));
    }
}

/// Calls `String::from_utf8` and keeps the text where it returned `Ok`: the
/// bytes are turned into the text that they encode, and bytes that are not
/// UTF-8 give `None`.
#[verifier::external_body]
fn decode_text(bytes: Vec<u8>) -> (r: Option<String>)
    ensures
        r is Some <==> valid_utf8(bytes@),
        r matches Some(text) ==> text@ == decode_utf8(bytes@),
{
    String::from_utf8(bytes).ok()
}

/// A place of the layout: a column and a place in its stack.
#[derive(Clone, Copy, Debug, PartialEq, Eq, Structural)]
pub struct TabPosition {
    pub tab_index: TabIndex,
    pub position_index: PositionIdex,
}

impl Default for TabPosition {
    fn default() -> (r: Self)
        ensures
            r.tab_index.0 == 0,
            r.position_index.0 == 0,
    {
        TabPosition { tab_index: TabIndex(0), position_index: PositionIdex(0) }
    }
}

/// The stack of one column as plain channel numbers.
pub open spec fn stack_model(stack: Seq<ContentIndex>) -> Seq<int> {
    stack.map_values(|id: ContentIndex| id.0 as int)
}

/// The columns as plain channel numbers.
pub open spec fn columns_model(columns: Seq<TypedVec<PositionIdex, ContentIndex>>) -> Seq<
    Seq<int>,
> {
    columns.map_values(|stack: TypedVec<PositionIdex, ContentIndex>| stack_model(stack@))
}

/// The open tabs as a map from plain column numbers to plain places.
pub open spec fn open_model(open: Map<usize, PositionIdex>) -> Map<int, int> {
    Map::new(
        |c: int| 0 <= c <= usize::MAX && open.contains_key(c as usize),
        |c: int| open[c as usize].0 as int,
    )
}

/// The channel buffers as plain mathematics.
pub open spec fn channels_model(contents: Seq<Content>) -> Seq<ContentView> {
    contents.map_values(|content: Content| content@)
}

/// The state of the viewer: the channel buffers, the columns of stacked
/// tabs, the open tab of each column and the cursor.
pub struct State {
    selected_tab: TabPosition,
    open_tabs: BTreeMap<usize, PositionIdex>,
    tabs_position: TypedVec<TabIndex, TypedVec<PositionIdex, ContentIndex>>,
    contents: TypedVec<ContentIndex, Content>,
    max_lines: usize,
    init: bool,
}

impl View for State {
    type V = StateView;

    closed spec fn view(&self) -> StateView {
        StateView {
            channels: channels_model(self.contents@),
            columns: columns_model(self.tabs_position@),
            open: open_model(self.open_tabs@),
            cursor: (self.selected_tab.tab_index.0 as int, self.selected_tab.position_index.0 as int),
            max_lines: self.max_lines as nat,
        }
    }
}

impl State {
    /// Every buffer holds what its cache promises.
    closed spec fn contents_wf(&self) -> bool {
        forall|i: int| 0 <= i < self.contents@.len() ==> (#[trigger] self.contents@[i]).wf()
    }

    /// The layout is dense, the cursor is on the open tab of its column, and
    /// every channel buffer is within its bounds.
    pub closed spec fn wf(&self) -> bool {
        &&& self@.wf()
        &&& self.contents_wf()
        &&& self.init == (self.contents@.len() > 0)
    }

    /// The model of a well-formed state is well formed: the layout is dense,
    /// every channel has exactly one tab, and the cursor is on the open tab
    /// of its column.
    pub proof fn lemma_view_wf(&self)
        requires
            self.wf(),
        ensures
            self@.wf(),
    {
    }

    /// The state before any line has arrived, for buffers of up to
    /// `max_lines` lines each.
    pub fn new(max_lines: usize) -> (r: Self)
        ensures
            r.wf(),
            r@ == StateView::initial(max_lines as nat),
    {
        let r = Self {
            selected_tab: TabPosition::default(),
            open_tabs: BTreeMap::new(),
            tabs_position: TypedVec::new(),
            contents: TypedVec::new(),
            max_lines,
            init: false,
        };
        proof {
            assert(r@.channels =~= Seq::empty());
            assert(r@.columns =~= Seq::empty());
            assert(r@.open =~= Map::empty());
        }
        r
    }

    /// The number of columns, as the handle one past the last.
    pub fn tab_count(&self) -> (r: TabIndex)
        ensures
            r.0 == self@.columns.len(),
    {
        self.tabs_position.len()
    }

    /// The column and the place under the cursor.
    pub fn selected(&self) -> (r: TabPosition)
        ensures
            r.tab_index.0 == self@.cursor.0,
            r.position_index.0 == self@.cursor.1,
    {
        self.selected_tab
    }

    /// The number of channels.
    pub fn channel_count(&self) -> (r: ContentIndex)
        ensures
            r.0 == self@.channels.len(),
    {
        self.contents.len()
    }

    /// Whether the channel buffers and the settings are those of `other`.
    closed spec fn same_channels(&self, other: &Self) -> bool {
        &&& self.contents == other.contents
        &&& self.max_lines == other.max_lines
        &&& self.init == other.init
    }

    /// The channel that is called `name`, if there is one.
    fn find(&self, name: &String) -> (r: Option<ContentIndex>)
        ensures
            match r {
                Some(index) => 0 <= index.0 < self@.channels.len()
                    && self@.channels[index.0 as int].name == name@,
                None => !self@.has_channel(name@),
            },
    {
        let n = self.contents.len().0;
        let mut i: usize = 0;
        while i < n
            invariant
                i <= n,
                n == self.contents@.len(),
                forall|j: int| 0 <= j < i ==> (#[trigger] self@.channels[j]).name != name@,
            decreases n - i,
        {
            match self.contents.get(ContentIndex(i)) {
                Some(tab) => {
                    if *tab.name() == *name {
                        return Some(ContentIndex(i));
                    }
                },
                None => {},
            }
            i = i + 1;
        }
        None
    }

    /// Makes the tab at the given place the selected one and the open one of
    /// its column.
    fn select_tab(&mut self, tab_index: TabIndex, position_index: PositionIdex, close_previous: bool)
        requires
            close_previous ==> old(self).selected_tab.tab_index == tab_index,
        ensures
            final(self)@ == old(self)@.selected(tab_index.0 as int, position_index.0 as int),
            final(self).same_channels(old(self)),
    {
        if close_previous {
            self.open_tabs.remove(&self.selected_tab.tab_index.0);
        }
        self.selected_tab = TabPosition { tab_index, position_index };
        self.open_tabs.insert(tab_index.0, position_index);
        proof {
            assert(self@.open =~= old(self)@.open.insert(
                tab_index.0 as int,
                position_index.0 as int,
            ));
        }
    }

    /// Puts a tab for the channel at the bottom of the given column, or into
    /// a new column where the index is one past the last, and selects it if
    /// asked to.
    fn add_tab(&mut self, tab_index: TabIndex, content_index: ContentIndex, add_selected: bool)
        requires
            tab_index.0 <= old(self)@.columns.len(),
        ensures
            final(self)@ == if add_selected {
                old(self)@.tab_placed(tab_index.0 as int, content_index.0 as int)
            } else {
                old(self)@.tab_stacked(tab_index.0 as int, content_index.0 as int)
            },
            final(self).same_channels(old(self)),
    {
        let ghost before = self.tabs_position@;
        let position_index = match self.tabs_position.get_mut(tab_index) {
            Some(tabs) => {
                tabs.push(content_index);
                tabs.len().prev()
            },
            None => {
                self.tabs_position.push(TypedVec::from(vec![content_index]));
                PositionIdex(0)
            },
        };
        proof {
            let c = tab_index.0 as int;
            let id = content_index.0 as int;
            if c < before.len() {
                assert(stack_model(before[c]@.push(content_index)) =~= stack_model(before[c]@).push(
                    id,
                ));
                assert(self@.columns =~= old(self)@.tab_stacked(c, id).columns);
            } else {
                assert(self.tabs_position@.last()@ =~= seq![content_index]);
                assert(stack_model(seq![content_index]) =~= seq![id]);
                assert(self@.columns =~= old(self)@.tab_stacked(c, id).columns);
            }
        }
        if add_selected {
            self.select_tab(tab_index, position_index, false);
        }
    }

    /// Puts a tab for the channel into a new first column and selects it.
    /// The open tabs of the old columns are renumbered.
    fn add_tab_in_front(&mut self, content_index: ContentIndex)
        requires
            old(self)@.dense(),
        ensures
            final(self)@ == old(self)@.tab_placed_in_front(content_index.0 as int),
            final(self).same_channels(old(self)),
    {
        let ghost before = self@;
        let ghost goal = before.tab_placed_in_front(content_index.0 as int);
        let count = self.tabs_position.len().0;
        self.tabs_position.insert(TabIndex(0), TypedVec::from(vec![content_index]));
        let total = self.tabs_position.len().0;
        let mut new_open_tabs: BTreeMap<usize, PositionIdex> = BTreeMap::new();
        let mut k: usize = 0;
        while k < count
            invariant
                k <= count,
                count + 1 == total,
                self.open_tabs == old(self).open_tabs,
                forall|j: usize|
                    #[trigger] new_open_tabs@.contains_key(j) <==> 0 < j <= k
                        && self.open_tabs@.contains_key((j - 1) as usize),
                forall|j: usize|
                    #[trigger] new_open_tabs@.contains_key(j) ==> new_open_tabs@[j]
                        == self.open_tabs@[(j - 1) as usize],
            decreases count - k,
        {
            match self.open_tabs.get(&k) {
                Some(position) => {
                    new_open_tabs.insert(k + 1, *position);
                },
                None => {},
            }
            k = k + 1;
        }
        self.open_tabs = new_open_tabs;
        proof {
            assert(self.tabs_position@[0]@ =~= seq![content_index]);
            assert(stack_model(seq![content_index]) =~= seq![content_index.0 as int]);
            assert(self@.columns =~= goal.columns);
        }
        self.select_tab(TabIndex(0), PositionIdex(0), false);
        proof {
            assert(self@.open =~= goal.open);
        }
    }

    /// Makes the buffer of a new channel, with its first line, and its tab
    /// at the bottom of the first column.
    fn add_content(&mut self, name: String, line: String, add_selected: bool)
        requires
            old(self).wf(),
            !old(self)@.has_channel(name@),
            add_selected == old(self)@.is_empty(),
        ensures
            final(self).wf(),
            final(self)@ == old(self)@.added(line@, name@),
    {
        let mut content = Content::new(name, self.max_lines);
        content.append(line);
        self.contents.push(content);
        self.init = true;
        let content_index = self.contents.len().prev();
        proof {
            assert(self@.channels =~= old(self)@.channels.push(content@));
        }
        self.add_tab(TabIndex(0), content_index, add_selected);
        proof {
            let goal = old(self)@.added(line@, name@);
            assert(self@.columns =~= goal.columns);
            crate::layout::lemma_added_wf(old(self)@, line@, name@);
        }
    }

    /// Takes in one line for the channel `name`. A name that is new gets a
    /// buffer and a tab at the bottom of the first column; the first channel
    /// ever is also selected.
    pub fn add_line(&mut self, line: String, name: String)
        requires
            old(self).wf(),
        ensures
            final(self).wf(),
            final(self)@ == old(self)@.added(line@, name@),
    {
        match self.find(&name) {
            Some(index) => {
                let ghost i = index.0 as int;
                match self.contents.get_mut(index) {
                    Some(tab) => {
                        tab.append(line);
                    },
                    None => {},
                }
                proof {
                    let before = old(self)@;
                    assert(self@.channels =~= before.channels.update(
                        i,
                        before.channels[i].appended(line@),
                    ));
                    crate::layout::lemma_added_wf(before, line@, name@);
                }
            },
            None => {
                let add_selected = !self.init;
                proof {
                    let before = old(self)@;
                    if !before.is_empty() {
                        assert(0 <= before.at(0, 0) < before.channels.len());
                    }
                }
                self.add_content(name, line, add_selected);
            },
        }
    }

    /// The channel under the cursor.
    fn get_current_content_index(&self) -> (r: ContentIndex)
        requires
            self@.valid_place(self@.cursor.0, self@.cursor.1),
        ensures
            r.0 == self@.selected_channel(),
    {
        let stack = self.tabs_position.get(self.selected_tab.tab_index).unwrap();
        *stack.get(self.selected_tab.position_index).unwrap()
    }

    /// The last place of the layout: the bottom of the rightmost column.
    fn rightest_tab(&self) -> (r: TabPosition)
        requires
            self@.dense(),
            !self@.is_empty(),
        ensures
            (r.tab_index.0 as int, r.position_index.0 as int) == self@.last_place(),
    {
        let max_tab_index = self.tabs_position.len().prev();
        proof {
            assert(self@.columns[max_tab_index.0 as int].len() > 0);
        }
        let max_position_index = self.tabs_position.get(max_tab_index).unwrap().len().prev();
        TabPosition { tab_index: max_tab_index, position_index: max_position_index }
    }

    /// Takes the tab at the given place out of the layout and tells whether
    /// its column went with it. A column that loses its only tab is removed
    /// and the open tabs of the columns to its right are renumbered; in a
    /// column that stays, the tab above the one taken becomes the open one.
    fn remove_tab(&mut self, tab_index: TabIndex, position_index: PositionIdex) -> (removed: bool)
        requires
            old(self)@.dense(),
            old(self)@.valid_place(tab_index.0 as int, position_index.0 as int),
        ensures
            final(self)@ == old(self)@.tab_removed(tab_index.0 as int, position_index.0 as int),
            removed == (old(self)@.columns[tab_index.0 as int].len() == 1),
            final(self).same_channels(old(self)),
    {
        let ghost before = self.tabs_position@;
        let ghost c = tab_index.0 as int;
        let ghost p = position_index.0 as int;
        let ghost goal = old(self)@.tab_removed(c, p);
        let total = self.tabs_position.len().0;
        let emptied = match self.tabs_position.get_mut(tab_index) {
            Some(tabs) => {
                tabs.remove(position_index);
                tabs.is_empty()
            },
            None => false,
        };
        if emptied {
            self.tabs_position.remove(tab_index);
            self.open_tabs.remove(&tab_index.0);
            let count = self.tabs_position.len().0;
            let mut new_open_tabs: BTreeMap<usize, PositionIdex> = BTreeMap::new();
            let mut k: usize = 0;
            while k <= count
                invariant
                    k <= count + 1,
                    count + 1 == total,
                    total == before.len(),
                    tab_index.0 <= count,
                    self.open_tabs@ == old(self).open_tabs@.remove(tab_index.0),
                    forall|j: usize|
                        #[trigger] new_open_tabs@.contains_key(j) <==> (if j < tab_index.0 {
                            j < k && self.open_tabs@.contains_key(j)
                        } else {
                            j + 1 < k && self.open_tabs@.contains_key((j + 1) as usize)
                        }),
                    forall|j: usize|
                        #[trigger] new_open_tabs@.contains_key(j) ==> new_open_tabs@[j] == (if j
                            < tab_index.0 {
                            self.open_tabs@[j]
                        } else {
                            self.open_tabs@[(j + 1) as usize]
                        }),
                decreases count + 1 - k,
            {
                match self.open_tabs.get(&k) {
                    Some(position) => {
                        if k > tab_index.0 {
                            new_open_tabs.insert(k - 1, *position);
                        } else {
                            new_open_tabs.insert(k, *position);
                        }
                    },
                    None => {},
                }
                k = k + 1;
            }
            self.open_tabs = new_open_tabs;
            proof {
                assert(self@.columns =~= goal.columns);
                assert(self@.open =~= goal.open);
            }
            true
        } else {
            let previous_position_index = position_index.saturating_prev();
            self.open_tabs.insert(tab_index.0, previous_position_index);
            proof {
                assert(stack_model(before[c]@.remove(p)) =~= stack_model(before[c]@).remove(p));
                assert(self@.columns =~= goal.columns);
                assert(self@.open =~= goal.open);
            }
            false
        }
    }

    /// The buffer of the channel under the cursor.
    fn get_selected_tab(&mut self) -> (tab: &mut Content)
        requires
            old(self).wf(),
            !old(self)@.is_empty(),
        ensures
            *tab == old(self).contents@[old(self)@.selected_channel()],
            final(self).contents@ == old(self).contents@.update(
                old(self)@.selected_channel(),
                *final(tab),
            ),
            final(self).selected_tab == old(self).selected_tab,
            final(self).open_tabs == old(self).open_tabs,
            final(self).tabs_position == old(self).tabs_position,
            final(self).max_lines == old(self).max_lines,
            final(self).init == old(self).init,
    {
        let index = self.get_current_content_index();
        self.contents.get_mut(index).unwrap()
    }

    /// Scrolls the channel under the cursor: up for a positive `delta`,
    /// down otherwise, by the absolute value of `delta`.
    pub fn scroll(&mut self, delta: i32)
        requires
            old(self).wf(),
            !old(self)@.is_empty(),
        ensures
            final(self).wf(),
            final(self)@ == old(self)@.scrolled(delta as int),
    {
        let tab = self.get_selected_tab();
        tab.scroll(delta);
        proof {
            let before = old(self)@;
            let id = before.selected_channel();
            assert(self@.channels =~= before.channels.update(
                id,
                before.channels[id].scrolled(delta as int),
            ));
            crate::layout::lemma_scrolled_wf(before, delta as int);
        }
    }

    /// Steps the cursor to the neighbouring tab, within its column or over
    /// the edge into the next one, and opens that tab.
    pub fn change_select(&mut self, direction: Direction) -> (action: Action)
        requires
            old(self).wf(),
            direction == Direction::Right ==> !old(self)@.is_empty(),
        ensures
            final(self).wf(),
            final(self)@ == old(self)@.selection_moved(direction),
            action == if old(self)@.step_is_idle(direction) {
                Action::Continue
            } else {
                Action::Draw
            },
    {
        let current = self.selected_tab;
        proof {
            if !self@.is_empty() {
                crate::layout::lemma_selection_moved_wf(self@, direction);
            }
        }
        match direction {
            Direction::Left => {
                if current.tab_index == TabIndex(0) && current.position_index == PositionIdex(0) {
                    return Action::Continue;
                }
                let (new_tab_index, new_position_index) = if current.position_index
                    == PositionIdex(0) {
                    let new_tab_index = current.tab_index.prev();
                    let last_position_index = self.tabs_position.get(
                        new_tab_index,
                    ).unwrap().len().prev();
                    (new_tab_index, last_position_index)
                } else {
                    (current.tab_index, current.position_index.prev())
                };
                self.select_tab(
                    new_tab_index,
                    new_position_index,
                    new_tab_index == current.tab_index,
                );
                Action::Draw
            },
            Direction::Right => {
                let rightest_tab = self.rightest_tab();
                if rightest_tab == current {
                    return Action::Continue;
                }
                let current_tab = self.tabs_position.get(current.tab_index).unwrap();
                let (next_tab_index, next_position_index) = if current_tab.len().prev()
                    == current.position_index {
                    (current.tab_index.next(), PositionIdex(0))
                } else {
                    (current.tab_index, current.position_index.next())
                };
                self.select_tab(
                    next_tab_index,
                    next_position_index,
                    next_tab_index == current.tab_index,
                );
                Action::Draw
            },
        }
    }

    /// Moves the tab under the cursor to the bottom of the neighbouring
    /// column, where it is selected and open. At either edge of the layout a
    /// new column is made for it; a column left empty goes.
    pub fn move_select(&mut self, direction: Direction) -> (action: Action)
        requires
            old(self).wf(),
            direction == Direction::Right ==> !old(self)@.is_empty(),
        ensures
            final(self).wf(),
            final(self)@ == old(self)@.channel_moved(direction),
            action == if old(self)@.move_is_idle(direction) {
                Action::Continue
            } else {
                Action::Draw
            },
    {
        let current_tab_index = self.selected_tab.tab_index;
        let position_index = self.selected_tab.position_index;
        proof {
            if !self@.is_empty() {
                crate::layout::lemma_channel_moved_wf(self@, direction);
            }
        }
        match direction {
            Direction::Left => {
                if current_tab_index == TabIndex(0) {
                    let alone = match self.tabs_position.get(current_tab_index) {
                        Some(stack) => stack.len() == PositionIdex(1),
                        None => true,
                    };
                    if alone {
                        return Action::Continue;
                    }
                    let current_content_index = self.get_current_content_index();
                    self.remove_tab(current_tab_index, position_index);
                    proof {
                        crate::layout::lemma_tab_removed_dense(
                            old(self)@,
                            current_tab_index.0 as int,
                            position_index.0 as int,
                        );
                    }
                    self.add_tab_in_front(current_content_index);
                } else {
                    let next_tab = current_tab_index.prev();
                    let current_content_index = self.get_current_content_index();
                    self.remove_tab(current_tab_index, position_index);
                    self.add_tab(next_tab, current_content_index, true);
                }
            },
            Direction::Right => {
                let is_last_tab = self.tabs_position.len() == current_tab_index.next();
                if is_last_tab && self.tabs_position.get(current_tab_index).unwrap().len()
                    == PositionIdex(1) {
                    return Action::Continue;
                }
                let mut next_tab = current_tab_index.next();
                let current_content_index = self.get_current_content_index();
                let removed = self.remove_tab(current_tab_index, position_index);
                if removed {
                    next_tab = next_tab.prev();
                }
                self.add_tab(next_tab, current_content_index, true);
            },
        }
        Action::Draw
    }

    /// Jumps with the cursor to the open tab of the neighbouring column.
    pub fn change_tab(&mut self, direction: Direction) -> (action: Action)
        requires
            old(self).wf(),
            direction == Direction::Right ==> !old(self)@.is_empty(),
        ensures
            final(self).wf(),
            final(self)@ == old(self)@.tab_switched(direction),
            action == if old(self)@.switch_is_idle(direction) {
                Action::Continue
            } else {
                Action::Draw
            },
    {
        let current_tab_index = self.selected_tab.tab_index;
        proof {
            if !self@.is_empty() {
                crate::layout::lemma_tab_switched_wf(self@, direction);
            }
        }
        match direction {
            Direction::Left => {
                if current_tab_index == TabIndex(0) {
                    return Action::Continue;
                }
                let next_tab = current_tab_index.prev();
                proof {
                    assert(self@.open.contains_key(next_tab.0 as int));
                }
                self.selected_tab = TabPosition {
                    tab_index: next_tab,
                    position_index: *self.open_tabs.get(&next_tab.0).unwrap(),
                };
                Action::Draw
            },
            Direction::Right => {
                let is_last_tab = self.tabs_position.len() == current_tab_index.next();
                if is_last_tab {
                    return Action::Continue;
                }
                let next_tab = current_tab_index.next();
                proof {
                    assert(self@.open.contains_key(next_tab.0 as int));
                }
                self.selected_tab = TabPosition {
                    tab_index: next_tab,
                    position_index: *self.open_tabs.get(&next_tab.0).unwrap(),
                };
                Action::Draw
            },
        }
    }

    /// Whether no channel has a tab yet.
    pub fn is_empty(&self) -> (r: bool)
        ensures
            r == self@.is_empty(),
    {
        self.tabs_position.is_empty()
    }

    /// Whether the state takes `event` while `pending` routing decisions
    /// wait.
    pub fn accepts_event(&self, event: &DrawEvent, pending: usize) -> (r: bool)
        ensures
            r == accepts(self@, *event, pending as nat),
    {
        match event {
            DrawEvent::Scroll(_) => !self.is_empty(),
            DrawEvent::ChangeSelect(direction) | DrawEvent::MoveSelect(direction)
            | DrawEvent::ChangeTab(direction) => match direction {
                Direction::Left => true,
                Direction::Right => !self.is_empty(),
            },
            DrawEvent::Trace(_) => pending > 0,
            DrawEvent::Resize => true,
        }
    }

    /// The channel whose tab stands at the given place, if it is a place of
    /// the layout.
    pub fn channel_at(&self, tab_index: TabIndex, position_index: PositionIdex) -> (r: Option<
        ContentIndex,
    >)
        ensures
            match r {
                Some(id) => self@.valid_place(tab_index.0 as int, position_index.0 as int) && id.0
                    == self@.at(tab_index.0 as int, position_index.0 as int),
                None => !self@.valid_place(tab_index.0 as int, position_index.0 as int),
            },
    {
        match self.tabs_position.get(tab_index) {
            Some(stack) => match stack.get(position_index) {
                Some(id) => Some(*id),
                None => None,
            },
            None => None,
        }
    }

    /// The number of tabs in the given column, if there is such a column.
    pub fn stack_len(&self, tab_index: TabIndex) -> (r: Option<PositionIdex>)
        ensures
            match r {
                Some(len) => tab_index.0 < self@.columns.len() && len.0
                    == self@.columns[tab_index.0 as int].len(),
                None => tab_index.0 >= self@.columns.len(),
            },
    {
        match self.tabs_position.get(tab_index) {
            Some(stack) => Some(stack.len()),
            None => None,
        }
    }

    /// The place of the open tab in the given column, if it has one.
    pub fn open_position(&self, tab_index: TabIndex) -> (r: Option<PositionIdex>)
        ensures
            match r {
                Some(position) => self@.open.contains_key(tab_index.0 as int) && position.0
                    == self@.open[tab_index.0 as int],
                None => !self@.open.contains_key(tab_index.0 as int),
            },
    {
        match self.open_tabs.get(&tab_index.0) {
            Some(position) => Some(*position),
            None => None,
        }
    }

    /// The buffer of the given channel, if there is such a channel.
    pub fn content(&self, index: ContentIndex) -> (r: Option<&Content>)
        ensures
            match r {
                Some(content) => index.0 < self@.channels.len() && content@
                    == self@.channels[index.0 as int] && (self.wf() ==> content.wf()),
                None => index.0 >= self@.channels.len(),
            },
    {
        self.contents.get(index)
    }

    /// Takes in one record: its routing decision and its text, where the
    /// bytes were text. A record without a name or without text is dropped.
    pub fn take_trace(&mut self, name: Option<String>, text: Option<String>) -> (action: Action)
        requires
            old(self).wf(),
        ensures
            final(self).wf(),
            final(self)@ == match (name, text) {
                (Some(name), Some(text)) => old(self)@.added(text@, name@),
                _ => old(self)@,
            },
            action == if name is Some && text is Some {
                Action::Draw
            } else {
                Action::Continue
            },
    {
        let name = match name {
            Some(name) => name,
            None => {
                return Action::Continue;
            },
        };
        let trace = match text {
            Some(trace) => trace,
            None => {
                return Action::Continue;
            },
        };
        self.add_line(trace, name);
        Action::Draw
    }

    /// Renders one column for a pane of `width` columns: the names of its
    /// stacked channels, the place of the open tab and of the cursor, and
    /// the pane of the open tab's channel.
    pub fn render_tab(&mut self, index: TabIndex, width: u16) -> (frame: TabFrame)
        requires
            old(self).wf(),
            index.0 < old(self)@.columns.len(),
        ensures
            final(self).wf(),
            final(self)@ == old(self)@.tab_rendered(index.0 as int, width),
            Self::frame_shows(frame, old(self)@, index.0 as int, width),
    {
        let ghost before = self@;
        let ghost c = index.0 as int;
        proof {
            crate::layout::lemma_tab_rendered_wf(before, c, width);
            assert(before.open.contains_key(c));
        }
        let render_index = *self.open_tabs.get(&index.0).unwrap();
        let stack = self.tabs_position.get(index).unwrap();
        let n = stack.len().0;
        let mut header: Vec<String> = Vec::new();
        let mut selected: Option<PositionIdex> = None;
        let mut to_render: Option<ContentIndex> = None;
        let mut p: usize = 0;
        while p < n
            invariant
                p <= n,
                n == stack@.len(),
                self@ == before,
                self.wf(),
                0 <= c < before.columns.len(),
                c == index.0,
                stack_model(stack@) == before.columns[c],
                render_index.0 == before.open[c],
                0 <= before.open[c] < n,
                texts(header@) == before.header(c).subrange(0, p as int),
                to_render == if render_index.0 < p {
                    Some(ContentIndex(before.shown_channel(c) as usize))
                } else {
                    None
                },
                selected == if before.cursor.0 == c && before.cursor.1 < p {
                    Some(PositionIdex(before.cursor.1 as usize))
                } else {
                    None
                },
            decreases n - p,
        {
            let position_index = PositionIdex(p);
            let content_index = *stack.get(position_index).unwrap();
            proof {
                assert(before.at(c, p as int) == content_index.0);
            }
            let content = self.contents.get(content_index).unwrap();
            let ghost held = header@;
            let name = content.name().clone();
            header.push(name);
            proof {
                assert(before.header(c).subrange(0, p as int + 1) =~= before.header(c).subrange(
                    0,
                    p as int,
                ).push(before.channels[content_index.0 as int].name));
            }
            if position_index == render_index {
                to_render = Some(content_index);
            }
            if self.selected_tab == (TabPosition { tab_index: index, position_index }) {
                selected = Some(position_index);
            }
            p = p + 1;
        }
        proof {
            assert(before.header(c).subrange(0, n as int) =~= before.header(c));
        }
        let content_index = to_render.unwrap();
        let content = self.contents.get_mut(content_index).unwrap();
        let pane = content.render_content(selected.is_some(), width);
        proof {
            let id = before.shown_channel(c);
            assert(self@.channels =~= before.channels.update(
                id,
                before.channels[id].rendered(width),
            ));
        }
        TabFrame { header, open: render_index, selected, pane }
    }

    /// Whether `frame` is what column `c` of `state` shows in a pane of
    /// `width` columns.
    pub open spec fn frame_shows(frame: TabFrame, state: StateView, c: int, width: u16) -> bool {
        &&& texts(frame.header@) == state.header(c)
        &&& frame.open.0 == state.open[c]
        &&& frame.selected == if state.cursor.0 == c {
            Some(PositionIdex(state.cursor.1 as usize))
        } else {
            None
        }
        &&& frame.pane.shows(state.channels[state.shown_channel(c)], width, state.cursor.0 == c)
    }

    /// Renders every column, from left to right, each for a pane of its
    /// width in `widths`.
    pub fn render(&mut self, widths: &Vec<u16>) -> (frames: Vec<TabFrame>)
        requires
            old(self).wf(),
            widths@.len() == old(self)@.columns.len(),
        ensures
            final(self).wf(),
            final(self)@ == old(self)@.columns_rendered(widths@, widths@.len() as int),
            frames@.len() == widths@.len(),
            forall|c: int|
                0 <= c < frames@.len() ==> Self::frame_shows(
                    #[trigger] frames@[c],
                    old(self)@,
                    c,
                    widths@[c],
                ),
    {
        let ghost before = self@;
        let tabs = self.tabs_position.len().0;
        let mut frames: Vec<TabFrame> = Vec::new();
        let mut index: usize = 0;
        while index < tabs
            invariant
                index <= tabs,
                tabs == widths@.len(),
                tabs == before.columns.len(),
                before.wf(),
                self.wf(),
                self@ == before.columns_rendered(widths@, index as int),
                frames@.len() == index,
                forall|c: int|
                    0 <= c < index ==> Self::frame_shows(
                        #[trigger] frames@[c],
                        before,
                        c,
                        widths@[c],
                    ),
            decreases tabs - index,
        {
            proof {
                crate::layout::lemma_columns_rendered_wf(before, widths@, index as int);
            }
            let ghost now = self@;
            let frame = self.render_tab(TabIndex(index), widths[index]);
            proof {
                let c = index as int;
                let id = before.shown_channel(c);
                crate::layout::lemma_tab_rendered_wf(before, c, widths@[c]);
                assert forall|p: int| 0 <= p < before.columns[c].len() implies now.header(c)[p]
                    == before.header(c)[p] by {
                    assert(0 <= before.at(c, p) < before.channels.len());
                }
                assert(now.header(c) =~= before.header(c));
                frame.pane.lemma_shows_same(
                    now.channels[id],
                    before.channels[id],
                    widths@[c],
                    before.cursor.0 == c,
                );
            }
            frames.push(frame);
            index = index + 1;
        }
        frames
    }
}

/// Takes in the bytes of one record together with the routing decision that
/// waits for them at the front of `trace_names`. A record that was routed
/// nowhere is dropped, and so is one whose bytes are no text.
pub fn on_trace_event(
    trace: Vec<u8>,
    state: &mut State,
    trace_names: &mut VecDeque<Option<String>>,
) -> (action: Action)
    requires
        old(state).wf(),
        old(trace_names)@.len() > 0,
    ensures
        final(state).wf(),
        final(trace_names)@ == old(trace_names)@.drop_first(),
        final(state)@ == old(state)@.traced(name_model(old(trace_names)@[0]), trace@),
        action == if old(trace_names)@[0] is Some && valid_utf8(trace@) {
            Action::Draw
        } else {
            Action::Continue
        },
{
    let name = trace_names.pop_front().unwrap();
    let name = match name {
        Some(name) => name,
        None => {
            return Action::Continue;
        },
    };
    let text = decode_text(trace);
    state.take_trace(Some(name), text)
}

/// Applies one event to the state and tells whether the screen is to be
/// painted afterwards. Only a record takes a routing decision from
/// `trace_names`, and it takes exactly one.
pub fn handle_draw_event(
    state: &mut State,
    trace_names: &mut VecDeque<Option<String>>,
    event: DrawEvent,
) -> (action: Action)
    requires
        old(state).wf(),
        accepts(old(state)@, event, old(trace_names)@.len()),
    ensures
        final(state).wf(),
        final(state)@ == handled(old(state)@, event, name_model(old(trace_names)@[0])),
        final(trace_names)@ == if event is Trace {
            old(trace_names)@.drop_first()
        } else {
            old(trace_names)@
        },
        action == if paints(old(state)@, event, name_model(old(trace_names)@[0])) {
            Action::Draw
        } else {
            Action::Continue
        },
{
    match event {
        DrawEvent::Scroll(scroll_event) => {
            state.scroll(scroll_event);
            Action::Draw
        },
        DrawEvent::Trace(trace) => on_trace_event(trace, state, trace_names),
        DrawEvent::Resize => Action::Draw,
        DrawEvent::ChangeSelect(direction) => state.change_select(direction),
        DrawEvent::MoveSelect(change_tab_direction) => state.move_select(change_tab_direction),
        DrawEvent::ChangeTab(change_tab_direction) => state.change_tab(change_tab_direction),
    }
}

} // verus!
