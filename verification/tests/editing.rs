use king::buffer::FileRead;
use king::editor::{Action, Editor};
use king::input::Key;
use king::mode::Mode;

fn chars(s: &str) -> Vec<char> {
    s.chars().collect()
}

fn input_text(ed: &mut Editor, text: &str) {
    for c in text.chars() {
        ed.handle_key(&Key::Char(c)).unwrap();
    }
}

/// Presses Enter and plays the file system's part: serves the load the
/// editor asks for with the given contents (`None` stands for a missing
/// file).
fn run_prompt_serving(ed: &mut Editor, contents: Option<&str>) {
    if let Some(Action::Load(path)) = ed.handle_key(&Key::Enter).unwrap() {
        let read = match contents {
            Some(s) => FileRead::Contents(s.chars().collect()),
            None => FileRead::Missing,
        };
        ed.finish_edit(path, read);
    }
}

const FILE_WITH_CONTENTS: &str = "line 1\nline 2\nline 3";

#[test]
fn editing_a_file_that_exists() {
    let mut ed = Editor::new(10, 10);

    input_text(&mut ed, ":edit tests/fixtures/file_with_contents");
    run_prompt_serving(&mut ed, Some(FILE_WITH_CONTENTS));

    assert_eq!(ed.mode(), Mode::Normal);
    assert_eq!(ed.prompt().message, Some(chars("\"tests/fixtures/file_with_contents\"")));
}

#[test]
fn cursor_position_reset_when_editing_a_new_file() {
    let mut ed = Editor::new(10, 10);

    input_text(&mut ed, ":edit tests/fixtures/file_with_contents");
    run_prompt_serving(&mut ed, Some(FILE_WITH_CONTENTS));
    ed.handle_key(&Key::Char('j')).unwrap();
    input_text(&mut ed, ":edit tests/fixtures/file2");
    run_prompt_serving(&mut ed, Some("other\ncontents"));

    assert_eq!(ed.cursor(), (0, 0));
}

#[test]
fn when_content_fits_the_window() {
    let mut ed = Editor::new(10, 10);

    input_text(&mut ed, ":edit tests/fixtures/file_with_contents");
    run_prompt_serving(&mut ed, Some(FILE_WITH_CONTENTS));

    assert_eq!(ed.window().content_view().height(), 3);
    assert_eq!(ed.window().content_view().line(0), &chars("line 1"));
    assert_eq!(ed.window().content_view().line(1), &chars("line 2"));
    assert_eq!(ed.window().content_view().line(2), &chars("line 3"));
}

#[test]
fn when_content_is_larger_than_the_window_height() {
    let mut ed = Editor::new(3, 10);

    input_text(&mut ed, ":edit tests/fixtures/file_with_contents");
    run_prompt_serving(&mut ed, Some(FILE_WITH_CONTENTS));

    assert_eq!(ed.window().content_view().height(), 2);
    assert_eq!(ed.window().content_view().line(0), &chars("line 1"));
    assert_eq!(ed.window().content_view().line(1), &chars("line 2"));
}

#[test]
fn when_scrolling_the_content() {
    let mut ed = Editor::new(3, 10);

    input_text(&mut ed, ":edit tests/fixtures/file_with_contents");
    run_prompt_serving(&mut ed, Some(FILE_WITH_CONTENTS));
    input_text(&mut ed, "jjj");

    assert_eq!(ed.window().content_view().height(), 2);
    assert_eq!(ed.window().content_view().line(0), &chars("line 2"));
    assert_eq!(ed.window().content_view().line(1), &chars("line 3"));
}

#[test]
fn editing_a_missing_file_yields_one_empty_line() {
    let mut ed = Editor::new(10, 10);

    input_text(&mut ed, ":edit tests/fixtures/no_such_file");
    run_prompt_serving(&mut ed, None);

    assert_eq!(ed.window().content_view().height(), 1);
    assert_eq!(ed.window().content_view().line(0), &chars(""));
    assert_eq!(ed.prompt().message, Some(chars("\"tests/fixtures/no_such_file\"")));
    assert_eq!(ed.cursor(), (0, 0));
}

#[test]
fn edit_resets_scroll_to_the_top() {
    let mut ed = Editor::new(3, 10);

    input_text(&mut ed, ":edit tests/fixtures/file_with_contents");
    run_prompt_serving(&mut ed, Some(FILE_WITH_CONTENTS));
    input_text(&mut ed, "jjj");
    assert_eq!(ed.window().content_view().line(0), &chars("line 2"));

    input_text(&mut ed, ":edit tests/fixtures/file2");
    run_prompt_serving(&mut ed, Some(FILE_WITH_CONTENTS));

    assert_eq!(ed.cursor(), (0, 0));
    assert_eq!(ed.window().content_view().line(0), &chars("line 1"));
}

#[test]
fn write_with_no_filename_reports_no_file_name() {
    let mut ed = Editor::new(10, 10);

    input_text(&mut ed, ":write");
    let outcome = ed.handle_key(&Key::Enter);

    match outcome {
        Err(err) => {
            // The run loop shows the error on the prompt line.
            let msg = king::error::error_message(err);
            assert_eq!(msg, chars("No file name given"));
            ed.display_error(msg);
            assert_eq!(ed.prompt().text(), &chars("No file name given"));
        },
        Ok(r) => panic!("expected an error, got an action: {:?}", r),
    }
}

#[test]
fn write_returns_the_serialized_buffer() {
    let mut ed = Editor::new(10, 10);

    input_text(&mut ed, ":edit notes");
    run_prompt_serving(&mut ed, Some("alpha\nbeta"));
    input_text(&mut ed, ":write");

    match ed.handle_key(&Key::Enter).unwrap() {
        Some(Action::Save(path, content)) => {
            assert_eq!(path, chars("notes"));
            assert_eq!(content, chars("alpha\nbeta\n"));
        },
        other => panic!("expected a save action, got {:?}", other),
    }
}

#[test]
fn unknown_command_reports_command_not_found() {
    let mut ed = Editor::new(10, 10);

    input_text(&mut ed, ":frobnicate");
    let outcome = ed.handle_key(&Key::Enter);

    match outcome {
        Err(err) => {
            assert_eq!(king::error::error_message(err), chars("Command not found: :frobnicate"));
        },
        Ok(r) => panic!("expected an error, got {:?}", r),
    }
}

#[test]
fn edit_without_a_path_is_an_error() {
    let mut ed = Editor::new(10, 10);

    input_text(&mut ed, ":edit");
    let outcome = ed.handle_key(&Key::Enter);

    assert!(outcome.is_err());
}

#[test]
fn keys_after_quit_are_not_processed() {
    let mut ed = Editor::new(10, 10);

    input_text(&mut ed, ":quit");
    ed.handle_key(&Key::Enter).unwrap();
    assert_eq!(ed.running(), false);

    // Nothing is processed once the editor has stopped: the mode stays
    // Normal and the buffer keeps its single empty line.
    input_text(&mut ed, "iabc");
    assert_eq!(ed.mode(), Mode::Normal);
    assert_eq!(ed.window().content_view().line(0), &chars(""));
    assert_eq!(ed.running(), false);
}
