use log_terminal::content::Content;
use log_terminal::wrap::{retain_shown, visible_fragments};

fn lines_of(c: &Content) -> Vec<String> {
    let mut out = Vec::new();
    let mut i = 0;
    while let Some(line) = c.line(i) {
        out.push(line);
        i += 1;
    }
    out
}

#[test]
fn new_content_is_empty() {
    let c = Content::new("net".to_string(), 5);
    assert_eq!(c.name(), "net");
    assert_eq!(c.len(), 0);
    assert_eq!(c.offset(), 0);
    assert_eq!(c.recomputed(), 0);
    assert_eq!(c.line(0), None);
}

#[test]
fn append_keeps_arrival_order() {
    let mut c = Content::new("net".to_string(), 5);
    c.append("one".to_string());
    c.append("two".to_string());
    c.append("three".to_string());
    assert_eq!(lines_of(&c), vec!["one", "two", "three"]);
    assert_eq!(c.offset(), 3);
}

#[test]
fn append_evicts_the_oldest_beyond_capacity() {
    let mut c = Content::new("net".to_string(), 3);
    for i in 0..10 {
        c.append(format!("line {i}"));
        assert!(c.len() <= 3);
    }
    assert_eq!(lines_of(&c), vec!["line 7", "line 8", "line 9"]);
}

#[test]
fn append_at_exact_capacity_keeps_all() {
    let mut c = Content::new("net".to_string(), 3);
    c.append("a".to_string());
    c.append("b".to_string());
    c.append("c".to_string());
    assert_eq!(lines_of(&c), vec!["a", "b", "c"]);
    c.append("d".to_string());
    assert_eq!(lines_of(&c), vec!["b", "c", "d"]);
}

#[test]
fn capacity_zero_keeps_nothing() {
    let mut c = Content::new("net".to_string(), 0);
    c.append("a".to_string());
    assert_eq!(c.len(), 0);
}

#[test]
fn scroll_follows_the_offset_rules() {
    let mut c = Content::new("net".to_string(), 100);
    for i in 0..10 {
        c.append(format!("{i}"));
    }
    c.scroll(1);
    assert_eq!(c.offset(), 9);
    c.scroll(-1);
    assert_eq!(c.offset(), 10);
    c.scroll(i32::MAX);
    assert_eq!(c.offset(), 0);
    c.scroll(-4);
    assert_eq!(c.offset(), 4);
    c.append("10".to_string());
    assert_eq!(c.offset(), 4);
    c.scroll(-i32::MAX);
    assert_eq!(c.offset(), 11);
    c.append("11".to_string());
    assert_eq!(c.offset(), 12);
}

#[test]
fn scroll_zero_goes_down() {
    let mut c = Content::new("net".to_string(), 100);
    c.append("a".to_string());
    c.scroll(0);
    assert_eq!(c.offset(), 1);
}

#[test]
fn render_wraps_at_width_minus_three() {
    let mut c = Content::new("net".to_string(), 100);
    c.append("Memory safety without garbage collection.".to_string());
    let pane = c.render_content(true, 18);
    assert_eq!(pane.rows, vec!["Memory safety", "without garbage", "collection."]);
    assert_eq!(pane.title, "net");
    assert_eq!(pane.offset, 1);
    assert_eq!(pane.total, 1);
    assert_eq!(pane.scrolling, None);
    assert!(pane.selected);
}

#[test]
fn render_concatenates_lines_in_order() {
    let mut c = Content::new("net".to_string(), 100);
    c.append("foo bar baz".to_string());
    c.append("short".to_string());
    let pane = c.render_content(false, 8);
    assert_eq!(pane.rows, vec!["foo", "bar", "baz", "short"]);
    assert!(!pane.selected);
    assert_eq!(pane.total, 2);
}

#[test]
fn render_drops_empty_fragments() {
    let mut c = Content::new("net".to_string(), 100);
    c.append("  foo bar".to_string());
    c.append("".to_string());
    c.append("x".to_string());
    let pane = c.render_content(false, 7);
    assert_eq!(pane.rows, vec!["foo", "bar", "x"]);
    assert_eq!(pane.total, 3);
}

#[test]
fn render_on_a_narrow_pane_breaks_every_letter() {
    let mut c = Content::new("net".to_string(), 100);
    c.append("foo".to_string());
    let pane = c.render_content(false, 2);
    assert_eq!(pane.rows, vec!["f", "o", "o"]);
}

#[test]
fn render_shows_the_scrolling_distance() {
    let mut c = Content::new("net".to_string(), 100);
    for i in 0..6 {
        c.append(format!("{i}"));
    }
    c.scroll(2);
    let pane = c.render_content(true, 40);
    assert_eq!(pane.offset, 4);
    assert_eq!(pane.total, 6);
    assert_eq!(pane.scrolling, Some(2));
    c.scroll(-2);
    let pane = c.render_content(true, 40);
    assert_eq!(pane.offset, 6);
    assert_eq!(pane.scrolling, None);
}

#[test]
fn render_twice_at_one_width_wraps_once() {
    let mut c = Content::new("net".to_string(), 100);
    c.append("foo bar baz".to_string());
    c.append("alpha beta".to_string());
    let first = c.render_content(false, 8);
    assert_eq!(c.recomputed(), 2);
    let second = c.render_content(false, 8);
    assert_eq!(c.recomputed(), 2);
    assert_eq!(first.rows, second.rows);
}

#[test]
fn render_at_another_width_wraps_again() {
    let mut c = Content::new("net".to_string(), 100);
    c.append("foo bar baz".to_string());
    c.append("alpha beta".to_string());
    let narrow = c.render_content(false, 8);
    assert_eq!(narrow.rows, vec!["foo", "bar", "baz", "alpha", "beta"]);
    let wide = c.render_content(false, 40);
    assert_eq!(c.recomputed(), 4);
    assert_eq!(wide.rows, vec!["foo bar baz", "alpha beta"]);
}

#[test]
fn render_wraps_only_the_new_line() {
    let mut c = Content::new("net".to_string(), 100);
    c.append("one".to_string());
    c.render_content(false, 20);
    assert_eq!(c.recomputed(), 1);
    c.append("two".to_string());
    let pane = c.render_content(false, 20);
    assert_eq!(c.recomputed(), 2);
    assert_eq!(pane.rows, vec!["one", "two"]);
}

#[test]
fn render_keeps_the_lines() {
    let mut c = Content::new("net".to_string(), 2);
    c.append("a".to_string());
    c.append("b".to_string());
    c.append("c".to_string());
    c.render_content(false, 10);
    assert_eq!(lines_of(&c), vec!["b", "c"]);
    c.append("d".to_string());
    let pane = c.render_content(false, 10);
    assert_eq!(pane.rows, vec!["c", "d"]);
}

#[test]
fn render_keeps_ansi_styled_text() {
    let mut c = Content::new("net".to_string(), 10);
    c.append("\u{1b}[31mred\u{1b}[0m".to_string());
    let pane = c.render_content(false, 40);
    assert_eq!(pane.rows, vec!["\u{1b}[31mred\u{1b}[0m"]);
}

#[test]
fn visible_fragments_subtracts_the_border() {
    assert_eq!(visible_fragments("foo bar baz", 8), vec!["foo", "bar", "baz"]);
    assert_eq!(visible_fragments("foo bar baz", 14), vec!["foo bar baz"]);
    assert_eq!(visible_fragments("foo", 0), vec!["f", "o", "o"]);
}

#[test]
fn retain_shown_drops_empty_strings() {
    let kept = retain_shown(vec!["".to_string(), "a".to_string(), "".to_string(), "b".to_string()]);
    assert_eq!(kept, vec!["a", "b"]);
    assert_eq!(retain_shown(Vec::new()), Vec::<String>::new());
}
