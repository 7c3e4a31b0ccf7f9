//! The editor: the mode-driven command dispatcher over one window and one
//! prompt.
//!
//! Each key press is one [`step`]: the current mode's table is consulted
//! first; an unmapped key falls back to the mode's default behaviour.  The
//! two commands that need the file system — `:edit` and `:write` — do not
//! perform any reading or writing; they hand the caller an [`Action`], and
//! the caller reports a load's outcome back through [`Editor::finish_edit`].

use crate::buffer::{join_lines_spec, loaded_lines, total_len, Buffer, BufView, FileRead};
use crate::command::{spec_parse, CmdView, Command};
use crate::error::{ErrView, Error};
use crate::input::Key;
use crate::mappings::Mappings;
use crate::mode::Mode;
use crate::movement::Movement;
use crate::prompt::{Prompt, PromptView};
use crate::unicode::{char_width, clone_chars, width_of};
use crate::window::{
    cur_line, over_line_col, spec_add_char, spec_add_line_above, spec_add_line_below,
    spec_advance, spec_break_line, spec_delete_char, spec_move, Window, WinView,
};
use crate::{MAX_LINES, MAX_TEXT};
use vstd::prelude::*;

verus! {

/// What the editor asks its caller to do on the file system.
#[derive(Debug)]
pub enum Action {
    /// Read the file at this path and report back via `finish_edit`.
    Load(Vec<char>),
    /// Write this content to the file at this path.
    Save(Vec<char>, Vec<char>),
}

/// The mathematical value of an [`Action`].
pub ghost enum ActView {
    Load(Seq<char>),
    Save(Seq<char>, Seq<char>),
}

impl View for Action {
    type V = ActView;

    open spec fn view(&self) -> ActView {
        match self {
            Action::Load(p) => ActView::Load(p@),
            Action::Save(p, c) => ActView::Save(p@, c@),
        }
    }
}

/// The mathematical value of an [`Editor`].
pub ghost struct EdView {
    pub mode: Mode,
    pub running: bool,
    pub win: WinView,
    pub prompt: PromptView,
    pub height: nat,
    pub width: nat,
    pub normal_map: Map<Key, CmdView>,
    pub insert_map: Map<Key, CmdView>,
    pub prompt_map: Map<Key, CmdView>,
}

/// An emptied prompt.
pub open spec fn prompt_cleared(p: PromptView) -> PromptView {
    PromptView {
        text: Seq::<char>::empty(),
        error: None,
        message: None,
        cur_x: 0,
        pos_y: p.pos_y,
    }
}

/// A prompt cleared and seeded with the triggering character.
pub open spec fn prompt_started(p: PromptView, c: char) -> PromptView {
    PromptView { text: seq![c], cur_x: width_of(seq![c]), ..prompt_cleared(p) }
}

/// A prompt with one character appended.
pub open spec fn prompt_added(p: PromptView, c: char) -> PromptView {
    PromptView { text: p.text.push(c), cur_x: (p.cur_x + char_width(c)) as nat, ..p }
}

/// A prompt with its last character removed.
pub open spec fn prompt_deleted(p: PromptView) -> PromptView {
    let t = if p.text.len() > 0 {
        p.text.drop_last()
    } else {
        p.text
    };
    PromptView { text: t, cur_x: width_of(t), ..p }
}

/// The commands a prompt line can name; all touch the file association.
/// `Quit` stops the loop, `Write` asks for a save, `Edit` asks for a load.
pub open spec fn file_step(e: EdView, c: CmdView) -> (EdView, Result<Option<ActView>, ErrView>) {
    match c {
        CmdView::Quit => (EdView { running: false, ..e }, Ok(None)),
        CmdView::Write => match e.win.buf.filename {
            Some(f) => (e, Ok(Some(ActView::Save(f, join_lines_spec(e.win.buf.lines))))),
            None => (e, Err(ErrView::NoFileName)),
        },
        CmdView::Edit(p) => (e, Ok(Some(ActView::Load(p)))),
        _ => (e, Ok(None)),
    }
}

/// One command's effect on the editor.  Commands that would push the buffer
/// past the machine-size bounds are ignored; those bounds are unreachable in
/// practice.
pub open spec fn cmd_step(e: EdView, c: CmdView) -> (EdView, Result<Option<ActView>, ErrView>) {
    match c {
        CmdView::Quit => file_step(e, c),
        CmdView::Write => file_step(e, c),
        CmdView::Edit(_) => file_step(e, c),
        CmdView::EnterPrompt(ch) => (
            EdView { mode: Mode::Prompt, prompt: prompt_started(e.prompt, ch), ..e },
            Ok(None),
        ),
        CmdView::CancelPrompt => (
            EdView { mode: Mode::Normal, prompt: prompt_cleared(e.prompt), ..e },
            Ok(None),
        ),
        CmdView::RunPrompt => {
            let t = e.prompt.text;
            let e2 = EdView { mode: Mode::Normal, prompt: prompt_cleared(e.prompt), ..e };
            if t.len() == 0 {
                (e2, Ok(None))
            } else {
                match spec_parse(t) {
                    Ok(c2) => file_step(e2, c2),
                    Err(err) => (e2, Err(err)),
                }
            }
        },
        CmdView::EnterInsert => (EdView { mode: Mode::Insert, ..e }, Ok(None)),
        CmdView::EnterInsertAfterCursor => (
            EdView { mode: Mode::Insert, win: spec_advance(e.win), ..e },
            Ok(None),
        ),
        CmdView::OpenLineAfter => {
            if e.win.buf.lines.len() < MAX_LINES {
                let w1 = WinView { cur_x: 0, ..spec_add_line_below(e.win) };
                (EdView { mode: Mode::Insert, win: spec_move(w1, Movement::Down), ..e }, Ok(None))
            } else {
                (e, Ok(None))
            }
        },
        CmdView::OpenLineBefore => {
            if e.win.buf.lines.len() < MAX_LINES {
                let w1 = WinView { cur_x: 0, ..spec_add_line_above(e.win) };
                (EdView { mode: Mode::Insert, win: w1, ..e }, Ok(None))
            } else {
                (e, Ok(None))
            }
        },
        CmdView::LeaveInsert => (
            EdView {
                mode: Mode::Normal,
                win: WinView {
                    cur_x: over_line_col(cur_line(e.win), e.win.cur_x),
                    ..e.win
                },
                ..e
            },
            Ok(None),
        ),
        CmdView::DeleteCharBeforeCursor => (
            EdView { win: spec_delete_char(e.win), ..e },
            Ok(None),
        ),
        CmdView::DeleteCharBeforeCursorInPrompt => {
            let p1 = prompt_deleted(e.prompt);
            (
                EdView {
                    mode: if p1.text.len() == 0 {
                        Mode::Normal
                    } else {
                        e.mode
                    },
                    prompt: p1,
                    ..e
                },
                Ok(None),
            )
        },
        CmdView::Movement(m) => (EdView { win: spec_move(e.win, m), ..e }, Ok(None)),
    }
}

/// One key press: nothing happens once the editor has stopped; otherwise the
/// current mode's table is consulted, and an unmapped key gets the mode's
/// default behaviour (Normal ignores it, Insert inserts or breaks the line,
/// Prompt collects it).
pub open spec fn step(e: EdView, key: Key) -> (EdView, Result<Option<ActView>, ErrView>) {
    if !e.running {
        (e, Ok(None))
    } else {
        match e.mode {
            Mode::Normal => {
                if e.normal_map.contains_key(key) {
                    cmd_step(e, e.normal_map[key])
                } else {
                    (e, Ok(None))
                }
            },
            Mode::Insert => {
                if e.insert_map.contains_key(key) {
                    cmd_step(e, e.insert_map[key])
                } else {
                    match key {
                        Key::Enter => {
                            if e.win.buf.lines.len() < MAX_LINES {
                                (EdView { win: spec_break_line(e.win), ..e }, Ok(None))
                            } else {
                                (e, Ok(None))
                            }
                        },
                        Key::Char(c) => {
                            if total_len(e.win.buf.lines) < MAX_TEXT {
                                (EdView { win: spec_add_char(e.win, c), ..e }, Ok(None))
                            } else {
                                (e, Ok(None))
                            }
                        },
                        _ => (e, Ok(None)),
                    }
                }
            },
            Mode::Prompt => {
                if e.prompt_map.contains_key(key) {
                    cmd_step(e, e.prompt_map[key])
                } else {
                    match key {
                        Key::Char(c) => {
                            if e.prompt.text.len() < MAX_TEXT {
                                (EdView { prompt: prompt_added(e.prompt, c), ..e }, Ok(None))
                            } else {
                                (e, Ok(None))
                            }
                        },
                        _ => (e, Ok(None)),
                    }
                }
            },
        }
    }
}

/// The editor after its caller reports what a load found: the buffer is
/// replaced wholesale, cursor and scroll return to the origin, and the
/// prompt shows the quoted path.
pub open spec fn spec_finish(e: EdView, p: Seq<char>, read: Option<Seq<char>>) -> EdView {
    EdView {
        win: WinView {
            buf: BufView { filename: Some(p), lines: loaded_lines(read) },
            scroll_pos: 0,
            cur_y: 0,
            cur_x: 0,
            ..e.win
        },
        prompt: PromptView { message: Some(seq!['"'] + p + seq!['"']), ..e.prompt },
        ..e
    }
}

/// The default Normal-mode bindings.
pub open spec fn default_normal_map() -> Map<Key, CmdView> {
    Map::<Key, CmdView>::empty().insert(Key::Char(':'), CmdView::EnterPrompt(':')).insert(
        Key::Char('i'),
        CmdView::EnterInsert,
    ).insert(Key::Char('a'), CmdView::EnterInsertAfterCursor).insert(
        Key::Char('o'),
        CmdView::OpenLineAfter,
    ).insert(Key::Char('O'), CmdView::OpenLineBefore).insert(
        Key::Char('h'),
        CmdView::Movement(Movement::Left),
    ).insert(Key::Char('j'), CmdView::Movement(Movement::Down)).insert(
        Key::Char('k'),
        CmdView::Movement(Movement::Up),
    ).insert(Key::Char('l'), CmdView::Movement(Movement::Right))
}

/// The default Insert-mode bindings.
pub open spec fn default_insert_map() -> Map<Key, CmdView> {
    Map::<Key, CmdView>::empty().insert(Key::Esc, CmdView::LeaveInsert).insert(
        Key::Backspace,
        CmdView::DeleteCharBeforeCursor,
    )
}

/// The default Prompt-mode bindings.
pub open spec fn default_prompt_map() -> Map<Key, CmdView> {
    Map::<Key, CmdView>::empty().insert(Key::Esc, CmdView::CancelPrompt).insert(
        Key::Enter,
        CmdView::RunPrompt,
    ).insert(Key::Backspace, CmdView::DeleteCharBeforeCursorInPrompt)
}

struct EditorInner {
    mode: Mode,
    running: bool,
    prompt: Prompt,
    window: Window,
    height: usize,
    width: usize,
    normal_mappings: Mappings,
    insert_mappings: Mappings,
    prompt_mappings: Mappings,
}

impl View for EditorInner {
    type V = EdView;

    closed spec fn view(&self) -> EdView {
        EdView {
            mode: self.mode,
            running: self.running,
            win: self.window@,
            prompt: self.prompt@,
            height: self.height as nat,
            width: self.width as nat,
            normal_map: self.normal_mappings@,
            insert_map: self.insert_mappings@,
            prompt_map: self.prompt_mappings@,
        }
    }
}

impl EditorInner {
    spec fn inv(self) -> bool {
        &&& self.window.wf()
        &&& self.prompt.wf()
        &&& self.height >= 2
        &&& self.width >= 1
        &&& self@.win.height == self@.height - 1
        &&& self@.win.width == self@.width
        &&& self@.prompt.pos_y == self@.height - 1
    }

    /// A minimal valid editor, swapped into place while a mutating method
    /// works on the real one (the verifier asks that the editor stay valid
    /// at every point, and a moved-out value satisfies that trivially).
    fn placeholder() -> (e: EditorInner)
        ensures
            e.inv(),
    {
        EditorInner {
            mode: Mode::Normal,
            running: true,
            prompt: Prompt::new(1),
            window: Window::new(1, 1, Buffer::new()),
            height: 2,
            width: 1,
            normal_mappings: Mappings::new(),
            insert_mappings: Mappings::new(),
            prompt_mappings: Mappings::new(),
        }
    }

    fn exit(&mut self)
        requires
            old(self).inv(),
        ensures
            final(self).inv(),
            final(self)@ == (EdView { running: false, ..old(self)@ }),
    {
        self.running = false;
    }

    fn switch_to_normal(&mut self)
        requires
            old(self).inv(),
        ensures
            final(self).inv(),
            final(self)@ == (EdView { mode: Mode::Normal, ..old(self)@ }),
    {
        self.mode = Mode::Normal;
    }

    fn run_file_command(&mut self, command: Command) -> (r: Result<Option<Action>, Error>)
        requires
            old(self).inv(),
        ensures
            final(self).inv(),
            ({
                let (e2, rr) = file_step(old(self)@, command@);
                final(self)@ == e2 && match r {
                    Ok(Some(a)) => rr == Ok::<Option<ActView>, ErrView>(Some(a@)),
                    Ok(None) => rr == Ok::<Option<ActView>, ErrView>(None),
                    Err(err) => rr == Err::<Option<ActView>, ErrView>(err@),
                }
            }),
    {
        match command {
            Command::Quit => {
                self.exit();
                Ok(None)
            },
            Command::Write => match self.window.write() {
                Ok(p) => Ok(Some(Action::Save(p.0, p.1))),
                Err(e) => Err(e),
            },
            Command::Edit(path) => Ok(Some(Action::Load(path))),
            _ => Ok(None),
        }
    }

    fn run_prompt(&mut self) -> (r: Result<Option<Action>, Error>)
        requires
            old(self).inv(),
        ensures
            final(self).inv(),
            ({
                let (e2, rr) = cmd_step(old(self)@, CmdView::RunPrompt);
                final(self)@ == e2 && match r {
                    Ok(Some(a)) => rr == Ok::<Option<ActView>, ErrView>(Some(a@)),
                    Ok(None) => rr == Ok::<Option<ActView>, ErrView>(None),
                    Err(err) => rr == Err::<Option<ActView>, ErrView>(err@),
                }
            }),
    {
        self.switch_to_normal();
        let text = clone_chars(self.prompt.command_text());
        self.prompt.clear();
        if text.len() == 0 {
            return Ok(None);
        }
        match Command::parse(&text) {
            Ok(command) => self.run_file_command(command),
            Err(e) => Err(e),
        }
    }

    fn run_command(&mut self, command: Command) -> (r: Result<Option<Action>, Error>)
        requires
            old(self).inv(),
        ensures
            final(self).inv(),
            ({
                let (e2, rr) = cmd_step(old(self)@, command@);
                final(self)@ == e2 && match r {
                    Ok(Some(a)) => rr == Ok::<Option<ActView>, ErrView>(Some(a@)),
                    Ok(None) => rr == Ok::<Option<ActView>, ErrView>(None),
                    Err(err) => rr == Err::<Option<ActView>, ErrView>(err@),
                }
            }),
    {
        match command {
            Command::Quit => self.run_file_command(command),
            Command::Write => self.run_file_command(command),
            Command::Edit(_) => self.run_file_command(command),
            Command::EnterPrompt(c) => {
                self.mode = Mode::Prompt;
                self.prompt.start(c);
                Ok(None)
            },
            Command::CancelPrompt => {
                self.switch_to_normal();
                self.prompt.clear();
                Ok(None)
            },
            Command::RunPrompt => self.run_prompt(),
            Command::EnterInsert => {
                self.mode = Mode::Insert;
                Ok(None)
            },
            Command::EnterInsertAfterCursor => {
                self.mode = Mode::Insert;
                self.window.advance_cursor();
                Ok(None)
            },
            Command::OpenLineAfter => {
                if self.window.line_count() < MAX_LINES {
                    self.mode = Mode::Insert;
                    self.window.add_line_below();
                    self.window.set_cur_x(0);
                    proof {
                        crate::window::lemma_zero_ok(cur_line(self@.win));
                    }
                    self.window.move_cursor(Movement::Down);
                }
                Ok(None)
            },
            Command::OpenLineBefore => {
                if self.window.line_count() < MAX_LINES {
                    self.mode = Mode::Insert;
                    self.window.add_line_above();
                    proof {
                        crate::window::lemma_zero_ok(cur_line(self@.win));
                    }
                    self.window.set_cur_x(0);
                }
                Ok(None)
            },
            Command::LeaveInsert => {
                self.switch_to_normal();
                self.window.ensure_cursor_over_line();
                Ok(None)
            },
            Command::DeleteCharBeforeCursor => {
                self.window.delete_char();
                Ok(None)
            },
            Command::DeleteCharBeforeCursorInPrompt => {
                self.prompt.delete_grapheme();
                if self.prompt.command_text().len() == 0 {
                    self.switch_to_normal();
                }
                Ok(None)
            },
            Command::Movement(movement) => {
                self.window.move_cursor(movement);
                Ok(None)
            },
        }
    }

    fn handle_key(&mut self, key: &Key) -> (r: Result<Option<Action>, Error>)
        requires
            old(self).inv(),
        ensures
            final(self).inv(),
            ({
                let (e2, rr) = step(old(self)@, *key);
                final(self)@ == e2 && match r {
                    Ok(Some(a)) => rr == Ok::<Option<ActView>, ErrView>(Some(a@)),
                    Ok(None) => rr == Ok::<Option<ActView>, ErrView>(None),
                    Err(err) => rr == Err::<Option<ActView>, ErrView>(err@),
                }
            }),
    {
        if !self.running {
            return Ok(None);
        }
        match self.mode {
            Mode::Normal => match self.normal_mappings.get(key) {
                Some(command) => self.run_command(command),
                None => Ok(None),
            },
            Mode::Insert => match self.insert_mappings.get(key) {
                Some(command) => self.run_command(command),
                None => match key {
                    Key::Enter => {
                        if self.window.line_count() < MAX_LINES {
                            self.window.break_line();
                        }
                        Ok(None)
                    },
                    Key::Char(c) => {
                        if self.window.total_chars() < MAX_TEXT {
                            self.window.add_char(*c);
                        }
                        Ok(None)
                    },
                    _ => Ok(None),
                },
            },
            Mode::Prompt => match self.prompt_mappings.get(key) {
                Some(command) => self.run_command(command),
                None => match key {
                    Key::Char(c) => {
                        if self.prompt.command_text().len() < MAX_TEXT {
                            self.prompt.add_char(*c);
                        }
                        Ok(None)
                    },
                    _ => Ok(None),
                },
            },
        }
    }

    fn finish_edit(&mut self, path: Vec<char>, read: FileRead)
        requires
            old(self).inv(),
            match read@ {
                Some(s) => s.len() <= MAX_TEXT,
                None => true,
            },
        ensures
            final(self).inv(),
            final(self)@ == spec_finish(old(self)@, path@, read@),
    {
        let mut quoted: Vec<char> = vec!['"'];
        crate::unicode::append_chars(&mut quoted, &path);
        quoted.push('"');
        proof {
            assert(quoted@ =~= seq!['"'] + path@ + seq!['"']);
        }
        let buffer = Buffer::for_file(path, read);
        self.window.set_buffer(buffer);
        self.prompt.display_message(quoted);
    }
}

/// The editor: current mode, run flag, the window, the prompt, and one
/// key→command table per mode.
pub struct Editor {
    inner: EditorInner,
}

impl View for Editor {
    type V = EdView;

    closed spec fn view(&self) -> EdView {
        self.inner@
    }
}

impl Editor {
    #[verifier::type_invariant]
    spec fn ty_inv(self) -> bool {
        self.inner.inv()
    }

    /// An editor for a terminal of `height` by `width` cells: Normal mode,
    /// running, a fresh unnamed buffer shown in a window one row shorter
    /// than the terminal (the last row belongs to the prompt), and the
    /// default key bindings.
    pub fn new(height: usize, width: usize) -> (e: Editor)
        requires
            height >= 2,
            width >= 1,
        ensures
            e@.mode == Mode::Normal,
            e@.running,
            e@.height == height,
            e@.width == width,
            e@.win == (WinView {
                buf: BufView { filename: None, lines: seq![Seq::<char>::empty()] },
                scroll_pos: 0,
                cur_y: 0,
                cur_x: 0,
                height: (height - 1) as nat,
                width: width as nat,
            }),
            e@.prompt == (PromptView {
                text: Seq::<char>::empty(),
                error: None,
                message: None,
                pos_y: (height - 1) as nat,
                cur_x: 0,
            }),
            e@.normal_map == default_normal_map(),
            e@.insert_map == default_insert_map(),
            e@.prompt_map == default_prompt_map(),
    {
        let window = Window::new(height - 1, width, Buffer::new());
        let prompt = Prompt::new(height - 1);
        let mut normal_mappings = Mappings::new();
        let mut insert_mappings = Mappings::new();
        let mut prompt_mappings = Mappings::new();
        normal_mappings.insert(Key::Char(':'), Command::EnterPrompt(':'));
        normal_mappings.insert(Key::Char('i'), Command::EnterInsert);
        normal_mappings.insert(Key::Char('a'), Command::EnterInsertAfterCursor);
        normal_mappings.insert(Key::Char('o'), Command::OpenLineAfter);
        normal_mappings.insert(Key::Char('O'), Command::OpenLineBefore);
        normal_mappings.insert(Key::Char('h'), Command::Movement(Movement::Left));
        normal_mappings.insert(Key::Char('j'), Command::Movement(Movement::Down));
        normal_mappings.insert(Key::Char('k'), Command::Movement(Movement::Up));
        normal_mappings.insert(Key::Char('l'), Command::Movement(Movement::Right));
        insert_mappings.insert(Key::Esc, Command::LeaveInsert);
        insert_mappings.insert(Key::Backspace, Command::DeleteCharBeforeCursor);
        prompt_mappings.insert(Key::Esc, Command::CancelPrompt);
        prompt_mappings.insert(Key::Enter, Command::RunPrompt);
        prompt_mappings.insert(Key::Backspace, Command::DeleteCharBeforeCursorInPrompt);
        Editor {
            inner: EditorInner {
                mode: Mode::Normal,
                running: true,
                prompt,
                window,
                height,
                width,
                normal_mappings,
                insert_mappings,
                prompt_mappings,
            },
        }
    }

    /// Whether the run loop should keep going; `:quit` clears it.
    pub fn running(&self) -> (r: bool)
        ensures
            r == self@.running,
    {
        self.inner.running
    }

    /// The window the editor edits in.
    pub fn window(&self) -> (w: &Window)
        ensures
            w@ == self@.win,
    {
        &self.inner.window
    }

    /// The prompt line.
    pub fn prompt(&self) -> (p: &Prompt)
        ensures
            p@ == self@.prompt,
    {
        &self.inner.prompt
    }

    /// The current mode.
    pub fn mode(&self) -> (m: Mode)
        ensures
            m == self@.mode,
    {
        self.inner.mode
    }

    /// The terminal dimensions the editor was built for.
    pub fn size(&self) -> (r: (usize, usize))
        ensures
            r.0 == self@.height,
            r.1 == self@.width,
    {
        (self.inner.height, self.inner.width)
    }

    /// The screen position of the cursor: in Prompt mode on the prompt row,
    /// otherwise wherever the window's cursor stands.
    pub fn cursor(&self) -> (r: (usize, usize))
        ensures
            self@.mode == Mode::Prompt ==> r.0 == self@.height - 1 && r.1 == self@.prompt.cur_x,
            self@.mode != Mode::Prompt ==> r.0 == self@.win.cur_y && r.1 == self@.win.cur_x,
    {
        proof {
            use_type_invariant(&*self);
        }
        match self.inner.mode {
            Mode::Normal => self.inner.window.cursor(),
            Mode::Insert => self.inner.window.cursor(),
            Mode::Prompt => (self.inner.height - 1, self.inner.prompt.cur_x),
        }
    }

    /// Binds a key to a command in one mode's table.
    pub fn add_mapping(&mut self, mode: Mode, key: Key, command: Command)
        ensures
            final(self)@ == match mode {
                Mode::Normal => (EdView {
                    normal_map: old(self)@.normal_map.insert(key, command@),
                    ..old(self)@
                }),
                Mode::Insert => (EdView {
                    insert_map: old(self)@.insert_map.insert(key, command@),
                    ..old(self)@
                }),
                Mode::Prompt => (EdView {
                    prompt_map: old(self)@.prompt_map.insert(key, command@),
                    ..old(self)@
                }),
            },
    {
        proof {
            use_type_invariant(&*self);
        }
        let mut work = EditorInner::placeholder();
        std::mem::swap(&mut work, &mut self.inner);
        match mode {
            Mode::Normal => work.normal_mappings.insert(key, command),
            Mode::Insert => work.insert_mappings.insert(key, command),
            Mode::Prompt => work.prompt_mappings.insert(key, command),
        }
        std::mem::swap(&mut work, &mut self.inner);
    }

    /// Shows feedback text on the prompt line (in the message slot, as the
    /// run loop does for command errors).
    pub fn display_error(&mut self, text: Vec<char>)
        ensures
            final(self)@ == (EdView {
                prompt: (PromptView { message: Some(text@), ..old(self)@.prompt }),
                ..old(self)@
            }),
    {
        proof {
            use_type_invariant(&*self);
        }
        let mut work = EditorInner::placeholder();
        std::mem::swap(&mut work, &mut self.inner);
        work.prompt.display_message(text);
        std::mem::swap(&mut work, &mut self.inner);
    }

    /// Processes one key press; see [`step`].  The returned action, if any,
    /// is the file work the caller must perform.
    pub fn handle_key(&mut self, key: &Key) -> (r: Result<Option<Action>, Error>)
        ensures
            ({
                let (e2, rr) = step(old(self)@, *key);
                final(self)@ == e2 && match r {
                    Ok(Some(a)) => rr == Ok::<Option<ActView>, ErrView>(Some(a@)),
                    Ok(None) => rr == Ok::<Option<ActView>, ErrView>(None),
                    Err(err) => rr == Err::<Option<ActView>, ErrView>(err@),
                }
            }),
    {
        proof {
            use_type_invariant(&*self);
        }
        let mut work = EditorInner::placeholder();
        std::mem::swap(&mut work, &mut self.inner);
        let r = work.handle_key(key);
        std::mem::swap(&mut work, &mut self.inner);
        r
    }

    /// Reports what the load asked for by an [`Action::Load`] found; see
    /// [`spec_finish`].  The cursor and the scroll position return to the
    /// origin whatever they were before.
    pub fn finish_edit(&mut self, path: Vec<char>, read: FileRead)
        requires
            match read@ {
                Some(s) => s.len() <= MAX_TEXT,
                None => true,
            },
        ensures
            final(self)@ == spec_finish(old(self)@, path@, read@),
    {
        proof {
            use_type_invariant(&*self);
        }
        let mut work = EditorInner::placeholder();
        std::mem::swap(&mut work, &mut self.inner);
        work.finish_edit(path, read);
        std::mem::swap(&mut work, &mut self.inner);
    }
}

} // verus!
