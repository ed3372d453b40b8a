use log_terminal::draw::{handle_draw_event, on_trace_event, Action, DrawEvent, State, TabPosition};
use log_terminal::index::{ContentIndex, PositionIdex, TabIndex};
use log_terminal::layout::Direction;
use std::collections::VecDeque;

fn at(c: usize, p: usize) -> TabPosition {
    TabPosition { tab_index: TabIndex(c), position_index: PositionIdex(p) }
}

fn names_in_column(state: &State, c: usize) -> Vec<String> {
    let mut out = Vec::new();
    let mut p = 0;
    while let Some(id) = state.channel_at(TabIndex(c), PositionIdex(p)) {
        out.push(state.content(id).unwrap().name().clone());
        p += 1;
    }
    out
}

fn lines_of(state: &State, id: usize) -> Vec<String> {
    let content = state.content(ContentIndex(id)).unwrap();
    let mut out = Vec::new();
    let mut i = 0;
    while let Some(line) = content.line(i) {
        out.push(line);
        i += 1;
    }
    out
}

fn with_channels(names: &[&str]) -> State {
    let mut state = State::new(2000);
    for name in names {
        state.add_line(format!("first of {name}"), name.to_string());
    }
    state
}

fn check_dense(state: &State) {
    let columns = state.tab_count().0;
    for c in 0..columns {
        let len = state.stack_len(TabIndex(c)).unwrap();
        assert!(len.0 > 0);
        let open = state.open_position(TabIndex(c)).unwrap();
        assert!(open < len);
    }
    assert_eq!(state.open_position(TabIndex(columns)), None);
    assert_eq!(state.stack_len(TabIndex(columns)), None);
    if columns > 0 {
        let cursor = state.selected();
        assert!(cursor.tab_index.0 < columns);
        assert!(cursor.position_index < state.stack_len(cursor.tab_index).unwrap());
        assert_eq!(state.open_position(cursor.tab_index), Some(cursor.position_index));
    }
}

#[test]
fn new_state_is_empty() {
    let state = State::new(2000);
    assert!(state.is_empty());
    assert_eq!(state.tab_count(), TabIndex(0));
    assert_eq!(state.channel_count(), ContentIndex(0));
    assert_eq!(state.selected(), at(0, 0));
    assert_eq!(state.open_position(TabIndex(0)), None);
    assert!(state.content(ContentIndex(0)).is_none());
}

#[test]
fn three_lines_for_two_names() {
    let mut state = State::new(2000);
    state.add_line("a1".to_string(), "A".to_string());
    state.add_line("b1".to_string(), "B".to_string());
    state.add_line("a2".to_string(), "A".to_string());
    assert_eq!(state.channel_count(), ContentIndex(2));
    assert_eq!(state.tab_count(), TabIndex(1));
    assert_eq!(names_in_column(&state, 0), vec!["A", "B"]);
    assert_eq!(lines_of(&state, 0), vec!["a1", "a2"]);
    assert_eq!(lines_of(&state, 1), vec!["b1"]);
    assert_eq!(state.selected(), at(0, 0));
    assert_eq!(state.open_position(TabIndex(0)), Some(PositionIdex(0)));
    assert_eq!(state.channel_at(TabIndex(0), PositionIdex(0)), Some(ContentIndex(0)));
    check_dense(&state);
}

#[test]
fn switch_tab_with_one_column_and_move_channel_right() {
    let mut state = with_channels(&["A", "B"]);
    assert_eq!(state.change_tab(Direction::Right), Action::Continue);
    assert_eq!(state.selected(), at(0, 0));
    assert_eq!(state.change_select(Direction::Right), Action::Draw);
    assert_eq!(state.selected(), at(0, 1));
    assert_eq!(state.move_select(Direction::Right), Action::Draw);
    assert_eq!(state.tab_count(), TabIndex(2));
    assert_eq!(names_in_column(&state, 0), vec!["A"]);
    assert_eq!(names_in_column(&state, 1), vec!["B"]);
    assert_eq!(state.selected(), at(1, 0));
    assert_eq!(state.open_position(TabIndex(0)), Some(PositionIdex(0)));
    assert_eq!(state.open_position(TabIndex(1)), Some(PositionIdex(0)));
    check_dense(&state);
}

#[test]
fn later_channels_are_not_selected() {
    let state = with_channels(&["A", "B", "C"]);
    assert_eq!(names_in_column(&state, 0), vec!["A", "B", "C"]);
    assert_eq!(state.selected(), at(0, 0));
    assert_eq!(state.open_position(TabIndex(0)), Some(PositionIdex(0)));
}

#[test]
fn buffers_are_bounded_by_max_lines() {
    let mut state = State::new(3);
    for i in 0..8 {
        state.add_line(format!("{i}"), "A".to_string());
    }
    assert_eq!(lines_of(&state, 0), vec!["5", "6", "7"]);
}

#[test]
fn change_select_left_at_the_first_place_is_idle() {
    let mut state = with_channels(&["A", "B"]);
    assert_eq!(state.change_select(Direction::Left), Action::Continue);
    assert_eq!(state.selected(), at(0, 0));
}

#[test]
fn change_select_on_an_empty_state_to_the_left_is_idle() {
    let mut state = State::new(10);
    assert_eq!(state.change_select(Direction::Left), Action::Continue);
    assert_eq!(state.move_select(Direction::Left), Action::Continue);
    assert_eq!(state.change_tab(Direction::Left), Action::Continue);
    assert!(state.is_empty());
}

#[test]
fn change_select_right_at_the_last_place_is_idle() {
    let mut state = with_channels(&["A", "B"]);
    state.change_select(Direction::Right);
    assert_eq!(state.change_select(Direction::Right), Action::Continue);
    assert_eq!(state.selected(), at(0, 1));
}

#[test]
fn change_select_walks_through_columns() {
    let mut state = with_channels(&["A", "B", "C"]);
    // A | B over C, by moving A out and back to the left edge
    state.change_select(Direction::Right);
    state.change_select(Direction::Right);
    state.move_select(Direction::Right);
    assert_eq!(names_in_column(&state, 0), vec!["A", "B"]);
    assert_eq!(names_in_column(&state, 1), vec!["C"]);
    assert_eq!(state.selected(), at(1, 0));
    assert_eq!(state.open_position(TabIndex(0)), Some(PositionIdex(1)));
    assert_eq!(state.change_select(Direction::Left), Action::Draw);
    assert_eq!(state.selected(), at(0, 1));
    assert_eq!(state.change_select(Direction::Left), Action::Draw);
    assert_eq!(state.selected(), at(0, 0));
    assert_eq!(state.open_position(TabIndex(0)), Some(PositionIdex(0)));
    assert_eq!(state.open_position(TabIndex(1)), Some(PositionIdex(0)));
    assert_eq!(state.change_select(Direction::Right), Action::Draw);
    assert_eq!(state.change_select(Direction::Right), Action::Draw);
    assert_eq!(state.selected(), at(1, 0));
    assert_eq!(state.open_position(TabIndex(0)), Some(PositionIdex(1)));
    check_dense(&state);
}

#[test]
fn move_select_right_alone_in_the_last_column_is_idle() {
    let mut state = with_channels(&["A"]);
    assert_eq!(state.move_select(Direction::Right), Action::Continue);
    assert_eq!(state.tab_count(), TabIndex(1));
    assert_eq!(names_in_column(&state, 0), vec!["A"]);
}

#[test]
fn move_select_left_alone_in_the_first_column_is_idle() {
    let mut state = with_channels(&["A", "B"]);
    state.change_select(Direction::Right);
    state.move_select(Direction::Right);
    state.change_tab(Direction::Left);
    assert_eq!(state.selected(), at(0, 0));
    assert_eq!(state.move_select(Direction::Left), Action::Continue);
    assert_eq!(names_in_column(&state, 0), vec!["A"]);
    assert_eq!(names_in_column(&state, 1), vec!["B"]);
    assert_eq!(state.selected(), at(0, 0));
}

#[test]
fn move_select_left_out_of_the_first_column_makes_a_new_first_column() {
    let mut state = with_channels(&["A", "B", "C"]);
    state.change_select(Direction::Right);
    assert_eq!(state.selected(), at(0, 1));
    assert_eq!(state.move_select(Direction::Left), Action::Draw);
    assert_eq!(state.tab_count(), TabIndex(2));
    assert_eq!(names_in_column(&state, 0), vec!["B"]);
    assert_eq!(names_in_column(&state, 1), vec!["A", "C"]);
    assert_eq!(state.selected(), at(0, 0));
    assert_eq!(state.open_position(TabIndex(0)), Some(PositionIdex(0)));
    assert_eq!(state.open_position(TabIndex(1)), Some(PositionIdex(0)));
    assert_eq!(state.open_position(TabIndex(2)), None);
    check_dense(&state);
    // the columns behind keep their open tabs, one column further right
    state.change_tab(Direction::Right);
    state.change_select(Direction::Right);
    assert_eq!(state.selected(), at(1, 1));
    state.move_select(Direction::Right);
    state.change_tab(Direction::Left);
    state.change_tab(Direction::Left);
    assert_eq!(state.selected(), at(0, 0));
    state.add_line("d".to_string(), "D".to_string());
    state.change_select(Direction::Right);
    assert_eq!(state.selected(), at(0, 1));
    assert_eq!(state.move_select(Direction::Left), Action::Draw);
    assert_eq!(names_in_column(&state, 0), vec!["D"]);
    assert_eq!(names_in_column(&state, 1), vec!["B"]);
    assert_eq!(names_in_column(&state, 2), vec!["A"]);
    assert_eq!(names_in_column(&state, 3), vec!["C"]);
    assert_eq!(state.selected(), at(0, 0));
    check_dense(&state);
}

#[test]
fn move_select_right_opens_the_tab_above() {
    let mut state = with_channels(&["A", "B", "C"]);
    state.change_select(Direction::Right);
    state.change_select(Direction::Right);
    assert_eq!(state.selected(), at(0, 2));
    assert_eq!(state.move_select(Direction::Right), Action::Draw);
    assert_eq!(names_in_column(&state, 0), vec!["A", "B"]);
    assert_eq!(names_in_column(&state, 1), vec!["C"]);
    assert_eq!(state.open_position(TabIndex(0)), Some(PositionIdex(1)));
    assert_eq!(state.selected(), at(1, 0));
    check_dense(&state);
}

#[test]
fn move_select_of_the_top_tab_opens_the_new_top() {
    let mut state = with_channels(&["A", "B", "C"]);
    assert_eq!(state.move_select(Direction::Right), Action::Draw);
    assert_eq!(names_in_column(&state, 0), vec!["B", "C"]);
    assert_eq!(names_in_column(&state, 1), vec!["A"]);
    assert_eq!(state.open_position(TabIndex(0)), Some(PositionIdex(0)));
    assert_eq!(state.selected(), at(1, 0));
}

#[test]
fn move_select_left_removes_an_emptied_column() {
    let mut state = with_channels(&["A", "B"]);
    state.change_select(Direction::Right);
    state.move_select(Direction::Right);
    assert_eq!(state.tab_count(), TabIndex(2));
    assert_eq!(state.move_select(Direction::Left), Action::Draw);
    assert_eq!(state.tab_count(), TabIndex(1));
    assert_eq!(names_in_column(&state, 0), vec!["A", "B"]);
    assert_eq!(state.selected(), at(0, 1));
    assert_eq!(state.open_position(TabIndex(0)), Some(PositionIdex(1)));
    assert_eq!(state.open_position(TabIndex(1)), None);
    check_dense(&state);
}

#[test]
fn move_select_right_out_of_an_emptied_column_shifts_the_rest() {
    let mut state = with_channels(&["A", "B", "C"]);
    // columns: [A] [B] [C]
    state.change_select(Direction::Right);
    state.change_select(Direction::Right);
    state.move_select(Direction::Right);
    state.change_select(Direction::Left);
    state.move_select(Direction::Right);
    assert_eq!(names_in_column(&state, 0), vec!["A"]);
    assert_eq!(names_in_column(&state, 1), vec!["C", "B"]);
    state.move_select(Direction::Right);
    assert_eq!(names_in_column(&state, 0), vec!["A"]);
    assert_eq!(names_in_column(&state, 1), vec!["C"]);
    assert_eq!(names_in_column(&state, 2), vec!["B"]);
    assert_eq!(state.selected(), at(2, 0));
    // move A to the right: column 0 goes, the others shift down
    state.change_tab(Direction::Left);
    state.change_tab(Direction::Left);
    assert_eq!(state.selected(), at(0, 0));
    assert_eq!(state.move_select(Direction::Right), Action::Draw);
    assert_eq!(state.tab_count(), TabIndex(2));
    assert_eq!(names_in_column(&state, 0), vec!["C", "A"]);
    assert_eq!(names_in_column(&state, 1), vec!["B"]);
    assert_eq!(state.selected(), at(0, 1));
    assert_eq!(state.open_position(TabIndex(0)), Some(PositionIdex(1)));
    assert_eq!(state.open_position(TabIndex(1)), Some(PositionIdex(0)));
    assert_eq!(state.open_position(TabIndex(2)), None);
    check_dense(&state);
}

#[test]
fn change_tab_goes_to_the_remembered_open_tab() {
    let mut state = with_channels(&["A", "B", "C"]);
    state.change_select(Direction::Right);
    state.change_select(Direction::Right);
    state.move_select(Direction::Right);
    // column 0 holds A, B with B open; column 1 holds C
    assert_eq!(state.change_tab(Direction::Left), Action::Draw);
    assert_eq!(state.selected(), at(0, 1));
    assert_eq!(state.change_tab(Direction::Left), Action::Continue);
    assert_eq!(state.change_tab(Direction::Right), Action::Draw);
    assert_eq!(state.selected(), at(1, 0));
    assert_eq!(state.change_tab(Direction::Right), Action::Continue);
    assert_eq!(names_in_column(&state, 0), vec!["A", "B"]);
    assert_eq!(state.open_position(TabIndex(0)), Some(PositionIdex(1)));
    check_dense(&state);
}

#[test]
fn scroll_reaches_the_selected_channel_only() {
    let mut state = State::new(100);
    for i in 0..5 {
        state.add_line(format!("a{i}"), "A".to_string());
        state.add_line(format!("b{i}"), "B".to_string());
    }
    state.scroll(2);
    assert_eq!(state.content(ContentIndex(0)).unwrap().offset(), 3);
    assert_eq!(state.content(ContentIndex(1)).unwrap().offset(), 5);
    state.change_select(Direction::Right);
    state.scroll(i32::MAX);
    assert_eq!(state.content(ContentIndex(0)).unwrap().offset(), 3);
    assert_eq!(state.content(ContentIndex(1)).unwrap().offset(), 0);
}

#[test]
fn accepts_event_tells_what_an_empty_state_takes() {
    let empty = State::new(10);
    assert!(!empty.accepts_event(&DrawEvent::Scroll(1), 0));
    assert!(empty.accepts_event(&DrawEvent::ChangeSelect(Direction::Left), 0));
    assert!(!empty.accepts_event(&DrawEvent::ChangeSelect(Direction::Right), 0));
    assert!(empty.accepts_event(&DrawEvent::MoveSelect(Direction::Left), 0));
    assert!(!empty.accepts_event(&DrawEvent::MoveSelect(Direction::Right), 0));
    assert!(empty.accepts_event(&DrawEvent::ChangeTab(Direction::Left), 0));
    assert!(!empty.accepts_event(&DrawEvent::ChangeTab(Direction::Right), 0));
    assert!(empty.accepts_event(&DrawEvent::Resize, 0));
    assert!(!empty.accepts_event(&DrawEvent::Trace(Vec::new()), 0));
    assert!(empty.accepts_event(&DrawEvent::Trace(Vec::new()), 1));
    let state = with_channels(&["A"]);
    assert!(state.accepts_event(&DrawEvent::Scroll(1), 0));
    assert!(state.accepts_event(&DrawEvent::MoveSelect(Direction::Right), 0));
    assert!(state.accepts_event(&DrawEvent::ChangeTab(Direction::Right), 0));
}

#[test]
fn trace_event_pairs_bytes_with_the_waiting_name() {
    let mut state = State::new(100);
    let mut names: VecDeque<Option<String>> = VecDeque::new();
    names.push_back(Some("A".to_string()));
    names.push_back(None);
    names.push_back(Some("B".to_string()));
    assert_eq!(on_trace_event(b"one".to_vec(), &mut state, &mut names), Action::Draw);
    assert_eq!(names.len(), 2);
    assert_eq!(on_trace_event(b"two".to_vec(), &mut state, &mut names), Action::Continue);
    assert_eq!(names.len(), 1);
    assert_eq!(on_trace_event(b"three".to_vec(), &mut state, &mut names), Action::Draw);
    assert!(names.is_empty());
    assert_eq!(state.channel_count(), ContentIndex(2));
    assert_eq!(lines_of(&state, 0), vec!["one"]);
    assert_eq!(lines_of(&state, 1), vec!["three"]);
}

#[test]
fn trace_event_drops_bytes_that_are_no_text() {
    let mut state = State::new(100);
    let mut names: VecDeque<Option<String>> = VecDeque::new();
    names.push_back(Some("A".to_string()));
    names.push_back(Some("A".to_string()));
    assert_eq!(on_trace_event(vec![0xff, 0xfe], &mut state, &mut names), Action::Continue);
    assert_eq!(names.len(), 1);
    assert!(state.is_empty());
    assert_eq!(on_trace_event("h\u{e9}llo".as_bytes().to_vec(), &mut state, &mut names), Action::Draw);
    assert_eq!(lines_of(&state, 0), vec!["h\u{e9}llo"]);
}

#[test]
fn take_trace_needs_a_name_and_a_text() {
    let mut state = State::new(100);
    assert_eq!(state.take_trace(None, Some("x".to_string())), Action::Continue);
    assert_eq!(state.take_trace(Some("A".to_string()), None), Action::Continue);
    assert_eq!(state.take_trace(None, None), Action::Continue);
    assert!(state.is_empty());
    assert_eq!(state.take_trace(Some("A".to_string()), Some("x".to_string())), Action::Draw);
    assert_eq!(lines_of(&state, 0), vec!["x"]);
}

#[test]
fn handle_draw_event_dispatches() {
    let mut state = State::new(100);
    let mut names: VecDeque<Option<String>> = VecDeque::new();
    assert_eq!(handle_draw_event(&mut state, &mut names, DrawEvent::Resize), Action::Draw);
    names.push_back(Some("A".to_string()));
    names.push_back(Some("B".to_string()));
    names.push_back(Some("A".to_string()));
    for text in ["a1", "b1", "a2"] {
        let event = DrawEvent::Trace(text.as_bytes().to_vec());
        assert_eq!(handle_draw_event(&mut state, &mut names, event), Action::Draw);
    }
    assert!(names.is_empty());
    assert_eq!(lines_of(&state, 0), vec!["a1", "a2"]);
    assert_eq!(
        handle_draw_event(&mut state, &mut names, DrawEvent::ChangeTab(Direction::Right)),
        Action::Continue
    );
    assert_eq!(
        handle_draw_event(&mut state, &mut names, DrawEvent::ChangeSelect(Direction::Right)),
        Action::Draw
    );
    assert_eq!(state.selected(), at(0, 1));
    assert_eq!(
        handle_draw_event(&mut state, &mut names, DrawEvent::MoveSelect(Direction::Right)),
        Action::Draw
    );
    assert_eq!(names_in_column(&state, 1), vec!["B"]);
    assert_eq!(
        handle_draw_event(&mut state, &mut names, DrawEvent::ChangeTab(Direction::Left)),
        Action::Draw
    );
    assert_eq!(state.selected(), at(0, 0));
    assert_eq!(handle_draw_event(&mut state, &mut names, DrawEvent::Scroll(1)), Action::Draw);
    assert_eq!(state.content(ContentIndex(0)).unwrap().offset(), 1);
    assert_eq!(handle_draw_event(&mut state, &mut names, DrawEvent::Scroll(-1)), Action::Draw);
    assert_eq!(state.content(ContentIndex(0)).unwrap().offset(), 2);
    check_dense(&state);
}

#[test]
fn render_tab_shows_the_open_channel() {
    let mut state = State::new(100);
    state.add_line("foo bar baz".to_string(), "A".to_string());
    state.add_line("b line".to_string(), "B".to_string());
    state.change_select(Direction::Right);
    state.move_select(Direction::Right);
    state.add_line("c line".to_string(), "C".to_string());
    // column 0: A (open), C; column 1: B (open, selected)
    let left = state.render_tab(TabIndex(0), 8);
    assert_eq!(left.header, vec!["A", "C"]);
    assert_eq!(left.open, PositionIdex(0));
    assert_eq!(left.selected, None);
    assert_eq!(left.pane.title, "A");
    assert_eq!(left.pane.rows, vec!["foo", "bar", "baz"]);
    assert!(!left.pane.selected);
    let right = state.render_tab(TabIndex(1), 30);
    assert_eq!(right.header, vec!["B"]);
    assert_eq!(right.open, PositionIdex(0));
    assert_eq!(right.selected, Some(PositionIdex(0)));
    assert_eq!(right.pane.title, "B");
    assert_eq!(right.pane.rows, vec!["b line"]);
    assert!(right.pane.selected);
    assert_eq!(right.pane.scrolling, None);
}

#[test]
fn render_shows_every_column() {
    let mut state = State::new(100);
    state.add_line("foo bar baz".to_string(), "A".to_string());
    state.add_line("b line".to_string(), "B".to_string());
    state.change_select(Direction::Right);
    state.move_select(Direction::Right);
    let frames = state.render(&vec![8, 30]);
    assert_eq!(frames.len(), 2);
    assert_eq!(frames[0].header, vec!["A"]);
    assert_eq!(frames[0].selected, None);
    assert_eq!(frames[0].pane.rows, vec!["foo", "bar", "baz"]);
    assert_eq!(frames[1].header, vec!["B"]);
    assert_eq!(frames[1].selected, Some(PositionIdex(0)));
    assert_eq!(frames[1].pane.rows, vec!["b line"]);
    assert_eq!(frames[1], state.render_tab(TabIndex(1), 30));
    assert_eq!(state.content(ContentIndex(0)).unwrap().recomputed(), 1);
    assert_eq!(state.content(ContentIndex(1)).unwrap().recomputed(), 1);
    assert_eq!(State::new(5).render(&Vec::new()), Vec::new());
}

#[test]
fn render_tab_caches_per_channel() {
    let mut state = State::new(100);
    state.add_line("foo bar baz".to_string(), "A".to_string());
    state.render_tab(TabIndex(0), 8);
    state.render_tab(TabIndex(0), 8);
    assert_eq!(state.content(ContentIndex(0)).unwrap().recomputed(), 1);
    state.render_tab(TabIndex(0), 9);
    assert_eq!(state.content(ContentIndex(0)).unwrap().recomputed(), 2);
}

#[test]
fn layout_stays_dense_under_many_moves() {
    let mut state = with_channels(&["A", "B", "C", "D", "E"]);
    let steps = [
        1, 0, 2, 2, 0, 3, 1, 1, 2, 0, 0, 2, 3, 3, 1, 2, 2, 4, 5, 0, 2, 2, 3, 1, 4, 4, 2, 0, 5, 5, 2, 3,
        3, 3, 1, 1, 1, 0, 0, 2, 4, 2, 5, 3, 2, 2, 2, 1, 3, 3,
    ];
    for step in steps {
        match step {
            0 => state.change_select(Direction::Left),
            1 => state.change_select(Direction::Right),
            2 => state.move_select(Direction::Right),
            3 => state.move_select(Direction::Left),
            4 => state.change_tab(Direction::Left),
            _ => state.change_tab(Direction::Right),
        };
        check_dense(&state);
        let mut seen = Vec::new();
        for c in 0..state.tab_count().0 {
            seen.extend(names_in_column(&state, c));
        }
        seen.sort();
        assert_eq!(seen, vec!["A", "B", "C", "D", "E"]);
    }
}
