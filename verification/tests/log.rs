use log_terminal::log::{target_prefix, Level, RedirectLayer, SplitBy, SplitFilter, NAME_NOT_FOUND};
use std::collections::VecDeque;

fn list(items: &[&str]) -> Vec<String> {
    items.iter().map(|s| s.to_string()).collect()
}

#[test]
fn whitelist_keeps_listed_names() {
    let f = SplitFilter::whitelist(list(&["net", "db"]));
    assert_eq!(f.filter("net".to_string()), Some("net".to_string()));
    assert_eq!(f.filter("db".to_string()), Some("db".to_string()));
    assert_eq!(f.filter("ui".to_string()), None);
    assert_eq!(f.filter("".to_string()), None);
}

#[test]
fn blacklist_drops_listed_names() {
    let f = SplitFilter::blacklist(list(&["net", "db"]));
    assert_eq!(f.filter("net".to_string()), None);
    assert_eq!(f.filter("ui".to_string()), Some("ui".to_string()));
}

#[test]
fn empty_lists() {
    assert_eq!(SplitFilter::whitelist(Vec::new()).filter("a".to_string()), None);
    assert_eq!(SplitFilter::blacklist(Vec::new()).filter("a".to_string()), Some("a".to_string()));
}

#[test]
fn none_keeps_every_name() {
    let f = SplitFilter::none();
    assert_eq!(f.filter("anything".to_string()), Some("anything".to_string()));
    assert!(matches!(f, SplitFilter::All));
}

#[test]
fn target_prefix_cuts_at_the_first_separator() {
    assert_eq!(target_prefix("app::net::tcp"), "app");
    assert_eq!(target_prefix("app"), "app");
    assert_eq!(target_prefix(""), "");
    assert_eq!(target_prefix("::x"), "");
    assert_eq!(target_prefix("a:b::c"), "a:b");
    assert_eq!(target_prefix("a:::b"), "a");
    assert_eq!(target_prefix("a:"), "a:");
    assert_eq!(target_prefix("a::"), "a");
    assert_eq!(target_prefix("\u{e9}t\u{e9}::x"), "\u{e9}t\u{e9}");
}

#[test]
fn levels_compare_by_verbosity() {
    assert!(Level::Error.at_most(Level::Warn));
    assert!(Level::Info.at_most(Level::Debug));
    assert!(Level::Debug.at_most(Level::Debug));
    assert!(!Level::Trace.at_most(Level::Debug));
    assert!(!Level::Warn.at_most(Level::Error));
}

#[test]
fn layer_shows_up_to_debug_by_default() {
    let layer = RedirectLayer::new(SplitBy::Target(SplitFilter::none()));
    assert!(layer.enabled(Level::Error));
    assert!(layer.enabled(Level::Debug));
    assert!(!layer.enabled(Level::Trace));
    let layer = layer.with_max_level(Level::Info);
    assert!(layer.enabled(Level::Info));
    assert!(!layer.enabled(Level::Debug));
}

#[test]
fn layer_routes_by_target() {
    let layer = RedirectLayer::new(SplitBy::Target(SplitFilter::blacklist(list(&["app::db"]))));
    assert_eq!(layer.filter("app::net", Some("span")), Some("app::net".to_string()));
    assert_eq!(layer.filter("app::db", None), None);
}

#[test]
fn layer_routes_by_target_prefix() {
    let layer = RedirectLayer::new(SplitBy::TargetPrefix(SplitFilter::whitelist(list(&["app"]))));
    assert_eq!(layer.filter("app::net", None), Some("app".to_string()));
    assert_eq!(layer.filter("app", None), Some("app".to_string()));
    assert_eq!(layer.filter("other::net", None), None);
}

#[test]
fn layer_routes_by_span() {
    let layer = RedirectLayer::new(SplitBy::SpanPrefix(SplitFilter::none()));
    assert_eq!(layer.filter("app::net", Some("parent")), Some("parent".to_string()));
    assert_eq!(layer.filter("app::net", None), Some("undefined".to_string()));
    assert_eq!(NAME_NOT_FOUND, "undefined");
    let layer = RedirectLayer::new(SplitBy::SpanPrefix(SplitFilter::blacklist(list(&["undefined"]))));
    assert_eq!(layer.filter("app::net", None), None);
}

#[test]
fn on_event_queues_the_decision() {
    let layer = RedirectLayer::new(SplitBy::Target(SplitFilter::whitelist(list(&["a"]))));
    let mut names: VecDeque<Option<String>> = VecDeque::new();
    layer.on_event("a", None, &mut names);
    layer.on_event("b", None, &mut names);
    layer.on_event("a", Some("s"), &mut names);
    assert_eq!(names, vec![Some("a".to_string()), None, Some("a".to_string())]);
}
