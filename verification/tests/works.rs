use log_terminal::draw::{handle_draw_event, Action, DrawEvent, State};
use log_terminal::index::{ContentIndex, PositionIdex, TabIndex};
use log_terminal::log::{Level, RedirectLayer, SplitBy, SplitFilter};
use std::collections::VecDeque;

struct Viewer {
    layer: RedirectLayer,
    names: VecDeque<Option<String>>,
    state: State,
}

impl Viewer {
    fn new(layer: RedirectLayer, max_lines: usize) -> Self {
        Viewer { layer, names: VecDeque::new(), state: State::new(max_lines) }
    }

    fn record(&mut self, level: Level, target: &str, root_span: Option<&str>, text: String) {
        if !self.layer.enabled(level) {
            return;
        }
        self.layer.on_event(target, root_span, &mut self.names);
        let event = DrawEvent::Trace(text.into_bytes());
        assert!(self.state.accepts_event(&event, self.names.len()));
        handle_draw_event(&mut self.state, &mut self.names, event);
    }

    fn channel(&self, name: &str) -> Option<usize> {
        (0..self.state.channel_count().0)
            .find(|id| self.state.content(ContentIndex(*id)).unwrap().name() == name)
    }
}

#[test]
fn name() {
    let layer =
        RedirectLayer::new(SplitBy::Target(SplitFilter::none())).with_max_level(Level::Info);
    let mut viewer = Viewer::new(layer, 2000);

    let value = 10;

    for _ in 0..200 {
        viewer.record(Level::Debug, "works", None, "hello".to_string());
        viewer.record(Level::Info, "works", None, "hello".to_string());
        viewer.record(Level::Info, "pippo", Some("parent"), format!("hello amount={value}"));
        viewer.record(Level::Info, "works", Some("log2"), "log2".to_string());
        viewer.record(Level::Info, "works", Some("log3"), "log2".to_string());
        viewer.record(Level::Info, "works::log4", None, "log4".to_string());
    }

    assert!(viewer.names.is_empty());
    assert_eq!(viewer.state.channel_count(), ContentIndex(3));
    assert_eq!(viewer.state.tab_count(), TabIndex(1));
    let works = viewer.channel("works").unwrap();
    let pippo = viewer.channel("pippo").unwrap();
    let log4 = viewer.channel("works::log4").unwrap();
    assert_eq!((works, pippo, log4), (0, 1, 2));
    assert_eq!(viewer.state.content(ContentIndex(works)).unwrap().len(), 600);
    assert_eq!(viewer.state.content(ContentIndex(pippo)).unwrap().len(), 200);
    assert_eq!(viewer.state.content(ContentIndex(log4)).unwrap().len(), 200);
    assert_eq!(
        viewer.state.content(ContentIndex(pippo)).unwrap().line(0),
        Some("hello amount=10".to_string())
    );
    assert_eq!(viewer.state.selected().position_index, PositionIdex(0));
}

#[test]
fn max_lines() {
    let layer = RedirectLayer::new(SplitBy::SpanPrefix(SplitFilter::none()));
    let mut viewer = Viewer::new(layer, 100);

    let mut i = 0;
    while i < 120 {
        viewer.record(Level::Info, "works", Some("parent"), format!("hello amount={i}"));
        i += 1;
        let parent = viewer.channel("parent").unwrap();
        assert!(viewer.state.content(ContentIndex(parent)).unwrap().len() <= 100);
    }

    let parent = viewer.state.content(ContentIndex(0)).unwrap();
    assert_eq!(parent.name(), "parent");
    assert_eq!(parent.len(), 100);
    assert_eq!(parent.line(0), Some("hello amount=20".to_string()));
    assert_eq!(parent.line(99), Some("hello amount=119".to_string()));
    assert_eq!(
        handle_draw_event(&mut viewer.state, &mut viewer.names, DrawEvent::Resize),
        Action::Draw
    );
}
