use inquire::{Input, Key};

fn typed(text: &str) -> Input {
    let mut input = Input::new();
    for c in text.chars() {
        input.insert(c);
    }
    input
}

#[test]
fn new_input_is_empty() {
    let input = Input::new();
    assert!(input.is_empty());
    assert_eq!(input.content(), "");
    assert_eq!(input.cursor(), 0);
    assert_eq!(input.placeholder(), None);
}

#[test]
fn placeholder_is_not_content() {
    let input = Input::new().with_placeholder("123.45");
    assert_eq!(input.placeholder(), Some("123.45"));
    assert_eq!(input.content(), "");
    assert!(input.is_empty());
}

#[test]
fn insert_advances_cursor() {
    let input = typed("abc");
    assert_eq!(input.content(), "abc");
    assert_eq!(input.cursor(), 3);
}

#[test]
fn insert_in_the_middle() {
    let mut input = typed("ac");
    input.move_left();
    input.insert('b');
    assert_eq!(input.content(), "abc");
    assert_eq!(input.cursor(), 2);
}

#[test]
fn backspace_removes_before_cursor() {
    let mut input = typed("abc");
    input.move_left();
    input.backspace();
    assert_eq!(input.content(), "ac");
    assert_eq!(input.cursor(), 1);
}

#[test]
fn backspace_at_start_is_noop() {
    let mut input = typed("abc");
    input.move_to_start();
    input.backspace();
    assert_eq!(input.content(), "abc");
    assert_eq!(input.cursor(), 0);
    let mut empty = Input::new();
    empty.backspace();
    assert_eq!(empty.content(), "");
    assert_eq!(empty.cursor(), 0);
}

#[test]
fn delete_removes_at_cursor() {
    let mut input = typed("abc");
    input.move_to_start();
    input.delete();
    assert_eq!(input.content(), "bc");
    assert_eq!(input.cursor(), 0);
}

#[test]
fn delete_at_end_is_noop() {
    let mut input = typed("abc");
    input.delete();
    assert_eq!(input.content(), "abc");
    assert_eq!(input.cursor(), 3);
}

#[test]
fn moves_clamp_to_bounds() {
    let mut input = typed("ab");
    input.move_right();
    assert_eq!(input.cursor(), 2);
    input.move_left();
    input.move_left();
    input.move_left();
    assert_eq!(input.cursor(), 0);
    input.move_to_end();
    assert_eq!(input.cursor(), 2);
    input.move_to_start();
    assert_eq!(input.cursor(), 0);
}

#[test]
fn clear_keeps_placeholder() {
    let mut input = Input::new().with_placeholder("hint");
    input.insert('x');
    input.clear();
    assert_eq!(input.content(), "");
    assert_eq!(input.cursor(), 0);
    assert_eq!(input.placeholder(), Some("hint"));
}

#[test]
fn handle_key_applies_edits() {
    let mut input = Input::new();
    for key in [
        Key::Char('h'),
        Key::Char('i'),
        Key::MoveHome,
        Key::Char('>'),
        Key::MoveEnd,
        Key::Backspace,
        Key::Submit,
        Key::Cancel,
    ] {
        input.handle_key(key);
    }
    assert_eq!(input.content(), ">h");
    assert_eq!(input.cursor(), 2);
}

#[test]
fn cursor_stays_in_bounds_over_any_keys() {
    let keys = [
        Key::Backspace,
        Key::Delete,
        Key::MoveLeft,
        Key::Char('a'),
        Key::MoveRight,
        Key::MoveRight,
        Key::Char('b'),
        Key::MoveHome,
        Key::Delete,
        Key::Delete,
        Key::Delete,
        Key::MoveEnd,
        Key::Backspace,
        Key::Char('z'),
        Key::MoveLeft,
    ];
    let mut input = Input::new();
    for key in keys {
        input.handle_key(key);
        assert!(input.cursor() <= input.content().chars().count());
    }
    assert_eq!(input.content(), "z");
    assert_eq!(input.cursor(), 0);
}
