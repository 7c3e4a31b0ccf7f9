use king::buffer::FileRead;
use king::editor::{Action, Editor};
use king::input::Key;

fn chars(s: &str) -> Vec<char> {
    s.chars().collect()
}

fn input_text(ed: &mut Editor, text: &str) {
    for c in text.chars() {
        ed.handle_key(&Key::Char(c)).unwrap();
    }
}

fn run_prompt_serving(ed: &mut Editor, contents: &str) {
    if let Some(Action::Load(path)) = ed.handle_key(&Key::Enter).unwrap() {
        ed.finish_edit(path, FileRead::Contents(contents.chars().collect()));
    }
}

const FILE_WITH_CONTENTS: &str = "line 1\nline 2\nline 3";

#[test]
fn vertical_scroll() {
    let mut ed = Editor::new(3, 3);

    input_text(&mut ed, ":edit tests/fixtures/file_with_contents");
    run_prompt_serving(&mut ed, FILE_WITH_CONTENTS);
    assert_eq!(ed.cursor(), (0, 0));
    assert_eq!(ed.window().content_view().line(0), &chars("line 1"));

    input_text(&mut ed, "j");
    assert_eq!(ed.cursor(), (1, 0));
    assert_eq!(ed.window().content_view().line(1), &chars("line 2"));

    input_text(&mut ed, "j");
    assert_eq!(ed.cursor(), (1, 0));
    assert_eq!(ed.window().content_view().line(1), &chars("line 3"));

    input_text(&mut ed, "j");
    assert_eq!(ed.cursor(), (1, 0));
    assert_eq!(ed.window().content_view().line(1), &chars("line 3"));

    input_text(&mut ed, "k");
    assert_eq!(ed.cursor(), (0, 0));
    assert_eq!(ed.window().content_view().line(0), &chars("line 2"));

    input_text(&mut ed, "k");
    assert_eq!(ed.cursor(), (0, 0));
    assert_eq!(ed.window().content_view().line(0), &chars("line 1"));
}

#[test]
fn three_lines_in_a_two_row_viewport() {
    // A 3-line file in a viewport of height 2 (the editor keeps one row for
    // the prompt): the view first shows the first two lines; after three
    // downward presses it has scrolled by one, cursor pinned at the bottom
    // viewport row.
    let mut ed = Editor::new(3, 10);

    input_text(&mut ed, ":edit tests/fixtures/file_with_contents");
    run_prompt_serving(&mut ed, FILE_WITH_CONTENTS);

    assert_eq!(ed.window().content_view().height(), 2);
    assert_eq!(ed.window().content_view().line(0), &chars("line 1"));
    assert_eq!(ed.window().content_view().line(1), &chars("line 2"));

    input_text(&mut ed, "jjj");

    assert_eq!(ed.window().content_view().height(), 2);
    assert_eq!(ed.window().content_view().line(0), &chars("line 2"));
    assert_eq!(ed.window().content_view().line(1), &chars("line 3"));
    assert_eq!(ed.cursor(), (1, 0));
}
