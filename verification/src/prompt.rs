//! The single-line prompt: command text, transient feedback, and a display
//! cursor column.

use crate::unicode::{width, width_char, width_of};
use crate::MAX_TEXT;
use vstd::prelude::*;

verus! {

/// The mathematical value of a [`Prompt`].
pub ghost struct PromptView {
    pub text: Seq<char>,
    pub error: Option<Seq<char>>,
    pub message: Option<Seq<char>>,
    pub pos_y: nat,
    pub cur_x: nat,
}

/// The prompt line: the command text being typed, an optional transient
/// message or error shown in its place, the screen row it paints on, and the
/// cursor's display column.
pub struct Prompt {
    pub command_text: Vec<char>,
    pub error: Option<Vec<char>>,
    pub message: Option<Vec<char>>,
    pub pos_y: usize,
    pub cur_x: usize,
}

impl View for Prompt {
    type V = PromptView;

    open spec fn view(&self) -> PromptView {
        PromptView {
            text: self.command_text@,
            error: match self.error {
                Some(e) => Some(e@),
                None => None,
            },
            message: match self.message {
                Some(m) => Some(m@),
                None => None,
            },
            pos_y: self.pos_y as nat,
            cur_x: self.cur_x as nat,
        }
    }
}

/// The text the prompt shows: an error wins over a message, which wins over
/// the command text.
pub open spec fn shown_text(p: PromptView) -> Seq<char> {
    match p.error {
        Some(e) => e,
        None => match p.message {
            Some(m) => m,
            None => p.text,
        },
    }
}

impl Prompt {
    /// The cursor column always equals the command text's display width.
    pub open spec fn wf(self) -> bool {
        &&& self@.cur_x == width_of(self@.text)
        &&& self@.cur_x <= 3 * self@.text.len()
        &&& self@.text.len() <= MAX_TEXT
    }

    /// An empty prompt that paints on row `y`.
    pub fn new(y: usize) -> (p: Prompt)
        ensures
            p.wf(),
            p@.text == Seq::<char>::empty(),
            p@.error is None,
            p@.message is None,
            p@.pos_y == y,
            p@.cur_x == 0,
    {
        Prompt { command_text: Vec::new(), error: None, message: None, pos_y: y, cur_x: 0 }
    }

    /// What the prompt line shows right now.
    pub fn text(&self) -> (t: &Vec<char>)
        ensures
            t@ == shown_text(self@),
    {
        match &self.error {
            Some(text) => text,
            None => match &self.message {
                Some(text) => text,
                None => &self.command_text,
            },
        }
    }

    /// The command text being typed.
    pub fn command_text(&self) -> (t: &Vec<char>)
        ensures
            t@ == self@.text,
    {
        &self.command_text
    }

    /// Empties the prompt: no text, no feedback, cursor at column 0.
    pub fn clear(&mut self)
        ensures
            final(self).wf(),
            final(self)@.text == Seq::<char>::empty(),
            final(self)@.error is None,
            final(self)@.message is None,
            final(self)@.cur_x == 0,
            final(self)@.pos_y == old(self)@.pos_y,
    {
        self.command_text = Vec::new();
        self.message = None;
        self.error = None;
        self.cur_x = 0;
    }

    /// Clears the prompt, then seeds it with the triggering character.
    pub fn start(&mut self, starting_char: char)
        ensures
            final(self).wf(),
            final(self)@.text == seq![starting_char],
            final(self)@.error is None,
            final(self)@.message is None,
            final(self)@.cur_x == width_of(seq![starting_char]),
            final(self)@.pos_y == old(self)@.pos_y,
    {
        self.clear();
        self.add_char(starting_char);
        proof {
            assert(seq![starting_char] =~= Seq::<char>::empty().push(starting_char));
        }
    }

    /// Shows an error in place of the command text.
    pub fn display_error(&mut self, text: Vec<char>)
        ensures
            final(self)@ == (PromptView { error: Some(text@), ..old(self)@ }),
            old(self).wf() ==> final(self).wf(),
    {
        self.error = Some(text);
    }

    /// Shows a message in place of the command text.
    pub fn display_message(&mut self, text: Vec<char>)
        ensures
            final(self)@ == (PromptView { message: Some(text@), ..old(self)@ }),
            old(self).wf() ==> final(self).wf(),
    {
        self.message = Some(text);
    }

    /// Removes the last character of the command text, pulling the cursor
    /// back by its width.  An empty prompt is left unchanged.
    pub fn delete_grapheme(&mut self)
        requires
            old(self).wf(),
        ensures
            final(self).wf(),
            old(self)@.text.len() > 0 ==> final(self)@.text == old(self)@.text.drop_last(),
            old(self)@.text.len() == 0 ==> final(self)@.text == old(self)@.text,
            final(self)@.cur_x == width_of(final(self)@.text),
            final(self)@.error == old(self)@.error,
            final(self)@.message == old(self)@.message,
            final(self)@.pos_y == old(self)@.pos_y,
    {
        match self.command_text.pop() {
            Some(_) => {
                self.cur_x = width(&self.command_text);
                proof {
                    assert(old(self)@.text.subrange(0, old(self)@.text.len() - 1)
                        =~= old(self)@.text.drop_last());
                }
            },
            None => {},
        }
    }

    /// Appends a character to the command text, advancing the cursor by its
    /// width.
    pub fn add_char(&mut self, c: char)
        requires
            old(self).wf(),
            old(self)@.text.len() < MAX_TEXT,
        ensures
            final(self).wf(),
            final(self)@.text == old(self)@.text.push(c),
            final(self)@.cur_x == old(self)@.cur_x + crate::unicode::char_width(c),
            final(self)@.error == old(self)@.error,
            final(self)@.message == old(self)@.message,
            final(self)@.pos_y == old(self)@.pos_y,
    {
        let w = width_char(c);
        self.command_text.push(c);
        self.cur_x = self.cur_x + w;
        proof {
            assert(final(self)@.text.drop_last() =~= old(self)@.text);
        }
    }
}

} // verus!
