use king::buffer::{serialize_lines, split_lines, Buffer, FileRead};
use king::error::{error_message, Error};
use king::input::{decode_key, Key};
use king::unicode::{byte_index_for_grapheme_index, graphemes, width, width_char};

fn chars(s: &str) -> Vec<char> {
    s.chars().collect()
}

fn lines(ls: &[&str]) -> Vec<Vec<char>> {
    ls.iter().map(|l| l.chars().collect()).collect()
}

#[test]
fn loading_a_missing_file_gives_one_empty_line() {
    let b = Buffer::for_file(chars("nowhere"), FileRead::Missing);

    assert_eq!(b.len(), 1);
    assert_eq!(b.line(0), &chars(""));
    assert_eq!(b.filename(), Some(&chars("nowhere")));
}

#[test]
fn loading_an_empty_file_gives_one_empty_line() {
    let b = Buffer::for_file(chars("empty"), FileRead::Contents(chars("")));

    assert_eq!(b.len(), 1);
    assert_eq!(b.line(0), &chars(""));
}

#[test]
fn write_then_load_reproduces_the_lines() {
    let b = Buffer::for_file(chars("f"), FileRead::Contents(chars("one\ntwo 😀\n\nfour")));
    let (name, content) = b.write().unwrap();
    assert_eq!(name, chars("f"));
    assert_eq!(content, chars("one\ntwo 😀\n\nfour\n"));

    let b2 = Buffer::for_file(name, FileRead::Contents(content));
    assert_eq!(b2.len(), 4);
    assert_eq!(b2.line(0), &chars("one"));
    assert_eq!(b2.line(1), &chars("two 😀"));
    assert_eq!(b2.line(2), &chars(""));
    assert_eq!(b2.line(3), &chars("four"));
}

#[test]
fn splitting_strips_carriage_returns_before_newlines() {
    let ls = split_lines(&chars("a\r\nb\r"));

    assert_eq!(ls.len(), 2);
    assert_eq!(ls[0], chars("a"));
    assert_eq!(ls[1], chars("b\r"));
}

#[test]
fn serializing_appends_a_newline_after_every_line() {
    assert_eq!(serialize_lines(&lines(&["a", "", "b"])), chars("a\n\nb\n"));
    assert_eq!(serialize_lines(&lines(&[""])), chars("\n"));
}

#[test]
fn widths_of_plain_and_wide_characters() {
    assert_eq!(width_char('a'), 1);
    assert_eq!(width_char('😀'), 2);
    assert_eq!(width_char('\u{0301}'), 0); // combining acute accent
    assert_eq!(width(&chars("a😀b")), 4);
    assert_eq!(width(&chars("")), 0);
}

#[test]
fn grapheme_clusters_keep_combining_marks_together() {
    let gs = graphemes(&chars("e\u{0301}x"));

    assert_eq!(gs.len(), 2);
    assert_eq!(gs[0], chars("e\u{0301}"));
    assert_eq!(gs[1], chars("x"));
}

#[test]
fn byte_index_counts_characters_of_earlier_clusters() {
    let text = chars("e\u{0301}x😀y");

    assert_eq!(byte_index_for_grapheme_index(&text, 0), 0);
    assert_eq!(byte_index_for_grapheme_index(&text, 1), 2);
    assert_eq!(byte_index_for_grapheme_index(&text, 2), 3);
    assert_eq!(byte_index_for_grapheme_index(&text, 3), 4);
    assert_eq!(byte_index_for_grapheme_index(&text, 9), 0);
}

#[test]
fn error_messages() {
    assert_eq!(error_message(Error::NoFileName), chars("No file name given"));
    assert_eq!(error_message(Error::IoError(chars("boom"))), chars("IO error: boom"));
    assert_eq!(
        error_message(Error::CommandNotFound(chars(":nope"))),
        chars("Command not found: :nope")
    );
}

#[test]
fn decoding_raw_keys() {
    assert_eq!(decode_key(27), Key::Esc);
    assert_eq!(decode_key(13), Key::Enter);
    assert_eq!(decode_key(127), Key::Backspace);
    assert_eq!(decode_key('q' as u32), Key::Char('q'));
    assert_eq!(decode_key(0xD800), Key::Unknown);
}

#[test]
fn deleting_a_grapheme_in_a_buffer_line() {
    let mut b = Buffer::for_file(chars("f"), FileRead::Contents(chars("a😀b")));

    // Column 1 and column 2 both fall in the emoji's span.
    let removed = b.delete_char_at(0, 2).unwrap();
    assert_eq!(removed, chars("😀"));
    assert_eq!(b.line(0), &chars("ab"));

    // At or past the line's width there is nothing to delete.
    assert!(b.delete_char_at(0, 2).is_none());
}

#[test]
fn buffer_line_editing() {
    let mut b = Buffer::new();
    b.line_mut(0).push('h');
    b.line_mut(0).push('i');
    b.break_line(0, 1);
    assert_eq!(b.len(), 2);
    assert_eq!(b.line(0), &chars("h"));
    assert_eq!(b.line(1), &chars("i"));

    b.add_line(1);
    assert_eq!(b.line(1), &chars(""));

    b.join_lines(0);
    assert_eq!(b.len(), 2);
    assert_eq!(b.line(0), &chars("h"));

    b.join_lines(0);
    assert_eq!(b.len(), 1);
    assert_eq!(b.line(0), &chars("hi"));
}
