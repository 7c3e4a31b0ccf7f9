use king::buffer::{Buffer, FileRead};
use king::movement::Movement;
use king::window::Window;

fn chars(s: &str) -> Vec<char> {
    s.chars().collect()
}

fn window(contents: &str, height: usize, width: usize) -> Window {
    Window::new(height, width, Buffer::for_file(chars("f"), FileRead::Contents(chars(contents))))
}

#[test]
fn backspace_at_column_zero_merges_into_the_previous_line() {
    let mut w = window("abc\nxy", 5, 20);
    w.move_cursor(Movement::Down);
    assert_eq!(w.cursor(), (1, 0));

    w.delete_char();

    // The cursor lands at the previous line's pre-merge end column.
    assert_eq!(w.cursor(), (0, 3));
    let cv = w.content_view();
    assert_eq!(cv.height(), 1);
    assert_eq!(cv.line(0), &chars("abcxy"));
}

#[test]
fn backspace_at_column_zero_of_the_first_line_does_nothing() {
    let mut w = window("abc", 5, 20);

    w.delete_char();

    assert_eq!(w.cursor(), (0, 0));
    assert_eq!(w.content_view().line(0), &chars("abc"));
}

#[test]
fn moving_left_from_just_after_a_wide_cluster_lands_at_its_start() {
    // Line "a😀b": columns a:0, emoji:1..3, b:3.  From column 3, one leftward
    // move must land at column 1 — the emoji's start — never at column 2.
    let mut w = window("a😀b", 5, 20);
    w.move_cursor(Movement::Right);
    w.move_cursor(Movement::Right);
    assert_eq!(w.cursor(), (0, 3));

    w.move_cursor(Movement::Left);
    assert_eq!(w.cursor(), (0, 1));
}

#[test]
fn right_stops_before_the_line_width() {
    let mut w = window("ab", 5, 20);

    w.move_cursor(Movement::Right);
    assert_eq!(w.cursor(), (0, 1));
    w.move_cursor(Movement::Right);
    assert_eq!(w.cursor(), (0, 1));
}

#[test]
fn advance_cursor_allows_the_end_of_line_column() {
    let mut w = window("ab", 5, 20);
    w.move_cursor(Movement::Right);

    w.advance_cursor();
    assert_eq!(w.cursor(), (0, 2));

    // It never goes past the end of the line.
    w.advance_cursor();
    assert_eq!(w.cursor(), (0, 2));
}

#[test]
fn set_buffer_resets_cursor_and_scroll() {
    let mut w = window("a\nb\nc\nd\ne", 2, 20);
    w.move_cursor(Movement::Down);
    w.move_cursor(Movement::Down);
    w.move_cursor(Movement::Down);
    assert_eq!(w.content_view().line(0), &chars("c"));

    w.set_buffer(Buffer::new());

    assert_eq!(w.cursor(), (0, 0));
    assert_eq!(w.content_view().height(), 1);
    assert_eq!(w.content_view().line(0), &chars(""));
}
