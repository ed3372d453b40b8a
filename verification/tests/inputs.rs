use log_terminal::draw::DrawEvent;
use log_terminal::inputs::{on_input, Input, InputAction, Key, ALL, PAGE};
use log_terminal::layout::Direction;

fn sent(key: Key) -> DrawEvent {
    match on_input(Input::Key(key)) {
        InputAction::Send(event) => event,
        _ => panic!("the key sends no event"),
    }
}

#[test]
fn exit_key_leaves() {
    assert!(matches!(on_input(Input::Key(Key::Exit)), InputAction::Exit));
}

#[test]
fn arrow_keys_move_the_cursor() {
    assert!(matches!(sent(Key::SelectLeft), DrawEvent::ChangeSelect(Direction::Left)));
    assert!(matches!(sent(Key::SelectRight), DrawEvent::ChangeSelect(Direction::Right)));
    assert!(matches!(sent(Key::MoveLeft), DrawEvent::MoveSelect(Direction::Left)));
    assert!(matches!(sent(Key::MoveRight), DrawEvent::MoveSelect(Direction::Right)));
    assert!(matches!(sent(Key::ChangeLeft), DrawEvent::ChangeTab(Direction::Left)));
    assert!(matches!(sent(Key::ChangeRight), DrawEvent::ChangeTab(Direction::Right)));
}

#[test]
fn scroll_keys_send_their_magnitude() {
    assert!(matches!(sent(Key::ScrollUp), DrawEvent::Scroll(1)));
    assert!(matches!(sent(Key::Scroll10Up), DrawEvent::Scroll(10)));
    assert!(matches!(sent(Key::ScrollAllUp), DrawEvent::Scroll(i32::MAX)));
    assert!(matches!(sent(Key::ScrollDown), DrawEvent::Scroll(-1)));
    assert!(matches!(sent(Key::Scroll10Down), DrawEvent::Scroll(-10)));
    assert!(matches!(sent(Key::ScrollAllDown), DrawEvent::Scroll(-2147483647)));
    assert_eq!(PAGE, 10);
    assert_eq!(ALL, i32::MAX);
}

#[test]
fn resize_asks_for_a_repaint() {
    assert!(matches!(on_input(Input::Resize), InputAction::Send(DrawEvent::Resize)));
}

#[test]
fn other_inputs_are_ignored() {
    assert!(matches!(on_input(Input::Other), InputAction::Ignore));
}
