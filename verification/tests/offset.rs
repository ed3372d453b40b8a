use log_terminal::offset::{magnitude, Offset};

#[test]
fn new_offset_follows_the_tail() {
    let o = Offset::new();
    assert!(!o.is_enabled());
    assert_eq!(o.offset(17), 17);
    assert_eq!(o.offset(0), 0);
}

#[test]
fn scroll_up_parks_below_the_length() {
    let mut o = Offset::new();
    o.scroll_up(3, 10);
    assert!(o.is_enabled());
    assert_eq!(o.offset(10), 7);
    o.scroll_up(2, 10);
    assert_eq!(o.offset(10), 5);
}

#[test]
fn scroll_up_stops_at_zero() {
    let mut o = Offset::new();
    o.scroll_up(25, 10);
    assert!(o.is_enabled());
    assert_eq!(o.offset(10), 0);
}

#[test]
fn scroll_down_while_following_changes_nothing() {
    let mut o = Offset::new();
    o.scroll_down(-5, 10);
    assert!(!o.is_enabled());
    assert_eq!(o.offset(10), 10);
}

#[test]
fn scroll_down_moves_and_reattaches() {
    let mut o = Offset::new();
    o.scroll_up(6, 10);
    o.scroll_down(-2, 10);
    assert!(o.is_enabled());
    assert_eq!(o.offset(10), 6);
    o.scroll_down(-4, 10);
    assert!(!o.is_enabled());
    assert_eq!(o.offset(10), 10);
    assert_eq!(o.offset(12), 12);
}

#[test]
fn scroll_round_trip_restores_following() {
    for len in [0usize, 1, 2, 50] {
        for m in [1i32, 10, i32::MAX] {
            let mut o = Offset::new();
            o.scroll_up(m, len);
            o.scroll_down(-m, len);
            assert!(!o.is_enabled());
            assert_eq!(o.offset(len), len);
        }
    }
}

#[test]
fn jump_up_then_down_in_steps() {
    let mut o = Offset::new();
    o.scroll_up(i32::MAX, 25);
    assert!(o.is_enabled());
    assert_eq!(o.offset(25), 0);
    o.scroll_down(-10, 25);
    assert_eq!(o.offset(25), 10);
    o.scroll_down(-10, 25);
    assert_eq!(o.offset(25), 20);
    o.scroll_down(-10, 25);
    assert!(!o.is_enabled());
    assert_eq!(o.offset(25), 25);
}

#[test]
fn jump_down_reattaches_at_once() {
    let mut o = Offset::new();
    o.scroll_up(4, 9);
    o.scroll_down(-i32::MAX, 9);
    assert!(!o.is_enabled());
    assert_eq!(o.offset(9), 9);
}

#[test]
fn magnitude_is_the_absolute_value() {
    assert_eq!(magnitude(0), 0);
    assert_eq!(magnitude(7), 7);
    assert_eq!(magnitude(-7), 7);
    assert_eq!(magnitude(i32::MAX), 2147483647);
    assert_eq!(magnitude(i32::MIN), 2147483648);
}

#[test]
fn sign_of_the_delta_does_not_matter_to_offset() {
    let mut o = Offset::new();
    o.scroll_up(-3, 10);
    assert_eq!(o.offset(10), 7);
    o.scroll_down(2, 10);
    assert_eq!(o.offset(10), 9);
}
