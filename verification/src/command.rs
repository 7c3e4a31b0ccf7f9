//! Commands, and parsing of the colon-prompt command text.

use crate::error::{ErrView, Error};
use crate::movement::Movement;
use crate::unicode::clone_chars;
use vstd::prelude::*;

verus! {

/// Everything a key binding or a prompt line can ask of the editor.
pub enum Command {
    Quit,
    Edit(Vec<char>),
    Write,
    EnterPrompt(char),
    CancelPrompt,
    RunPrompt,
    EnterInsert,
    EnterInsertAfterCursor,
    OpenLineAfter,
    OpenLineBefore,
    LeaveInsert,
    DeleteCharBeforeCursor,
    DeleteCharBeforeCursorInPrompt,
    Movement(Movement),
}

/// The mathematical value of a [`Command`].
pub ghost enum CmdView {
    Quit,
    Edit(Seq<char>),
    Write,
    EnterPrompt(char),
    CancelPrompt,
    RunPrompt,
    EnterInsert,
    EnterInsertAfterCursor,
    OpenLineAfter,
    OpenLineBefore,
    LeaveInsert,
    DeleteCharBeforeCursor,
    DeleteCharBeforeCursorInPrompt,
    Movement(Movement),
}

impl View for Command {
    type V = CmdView;

    open spec fn view(&self) -> CmdView {
        match self {
            Command::Quit => CmdView::Quit,
            Command::Edit(p) => CmdView::Edit(p@),
            Command::Write => CmdView::Write,
            Command::EnterPrompt(c) => CmdView::EnterPrompt(*c),
            Command::CancelPrompt => CmdView::CancelPrompt,
            Command::RunPrompt => CmdView::RunPrompt,
            Command::EnterInsert => CmdView::EnterInsert,
            Command::EnterInsertAfterCursor => CmdView::EnterInsertAfterCursor,
            Command::OpenLineAfter => CmdView::OpenLineAfter,
            Command::OpenLineBefore => CmdView::OpenLineBefore,
            Command::LeaveInsert => CmdView::LeaveInsert,
            Command::DeleteCharBeforeCursor => CmdView::DeleteCharBeforeCursor,
            Command::DeleteCharBeforeCursorInPrompt => CmdView::DeleteCharBeforeCursorInPrompt,
            Command::Movement(m) => CmdView::Movement(*m),
        }
    }
}

/// A copy of a command.
pub fn clone_command(c: &Command) -> (r: Command)
    ensures
        r@ == c@,
{
    match c {
        Command::Quit => Command::Quit,
        Command::Edit(p) => Command::Edit(clone_chars(p)),
        Command::Write => Command::Write,
        Command::EnterPrompt(ch) => Command::EnterPrompt(*ch),
        Command::CancelPrompt => Command::CancelPrompt,
        Command::RunPrompt => Command::RunPrompt,
        Command::EnterInsert => Command::EnterInsert,
        Command::EnterInsertAfterCursor => Command::EnterInsertAfterCursor,
        Command::OpenLineAfter => Command::OpenLineAfter,
        Command::OpenLineBefore => Command::OpenLineBefore,
        Command::LeaveInsert => Command::LeaveInsert,
        Command::DeleteCharBeforeCursor => Command::DeleteCharBeforeCursor,
        Command::DeleteCharBeforeCursorInPrompt => Command::DeleteCharBeforeCursorInPrompt,
        Command::Movement(m) => Command::Movement(*m),
    }
}

/// The length of the first token: the index of the first space, or the whole
/// length when there is none.
pub open spec fn token_end(t: Seq<char>) -> int
    decreases t.len(),
{
    if t.len() == 0 {
        0
    } else if t[0] == ' ' {
        0
    } else {
        1 + token_end(t.drop_first())
    }
}

/// What characterizes the first token's end.
pub proof fn lemma_token_end(t: Seq<char>)
    ensures
        0 <= token_end(t) <= t.len(),
        forall|j: int| 0 <= j < token_end(t) ==> t[j] != ' ',
        token_end(t) < t.len() ==> t[token_end(t)] == ' ',
    decreases t.len(),
{
    if t.len() > 0 && t[0] != ' ' {
        lemma_token_end(t.drop_first());
        assert forall|j: int| 0 <= j < token_end(t) implies t[j] != ' ' by {
            if j > 0 {
                assert(t.drop_first()[j - 1] == t[j]);
            }
        }
    }
}

pub open spec fn quit_text() -> Seq<char> {
    seq![':', 'q', 'u', 'i', 't']
}

pub open spec fn write_text() -> Seq<char> {
    seq![':', 'w', 'r', 'i', 't', 'e']
}

pub open spec fn edit_text() -> Seq<char> {
    seq![':', 'e', 'd', 'i', 't']
}

/// The command a prompt text names: the first token (up to the first space)
/// selects it; `:edit` takes everything after that space as the path, and a
/// missing or empty path, like an unknown token, is `CommandNotFound`.
pub open spec fn spec_parse(t: Seq<char>) -> Result<CmdView, ErrView> {
    let te = token_end(t);
    let tok = t.take(te);
    if tok == quit_text() {
        Ok(CmdView::Quit)
    } else if tok == write_text() {
        Ok(CmdView::Write)
    } else if tok == edit_text() && te < t.len() && t.skip(te + 1).len() > 0 {
        Ok(CmdView::Edit(t.skip(te + 1)))
    } else {
        Err(ErrView::CommandNotFound(t))
    }
}

impl Command {
    /// Parses a prompt text; see [`spec_parse`].
    pub fn parse(text: &Vec<char>) -> (r: Result<Command, Error>)
        ensures
            match r {
                Ok(c) => spec_parse(text@) == Ok::<CmdView, ErrView>(c@),
                Err(e) => spec_parse(text@) == Err::<CmdView, ErrView>(e@),
            },
    {
        proof {
            lemma_token_end(text@);
        }
        let mut te: usize = 0;
        while te < text.len() && text[te] != ' '
            invariant
                te <= text@.len(),
                forall|j: int| 0 <= j < te ==> text@[j] != ' ',
            decreases text@.len() - te,
        {
            te = te + 1;
        }
        proof {
            if te < token_end(text@) {
                assert(text@[te as int] == ' ');
            }
            if token_end(text@) < te {
                assert(text@[token_end(text@)] != ' ');
            }
            assert(te == token_end(text@));
        }
        let mut tok: Vec<char> = Vec::new();
        let mut i: usize = 0;
        while i < te
            invariant
                te <= text@.len(),
                i <= te,
                tok@ == text@.take(te as int).take(i as int),
            decreases te - i,
        {
            tok.push(text[i]);
            proof {
                assert(text@.take(te as int).take(i + 1) =~= text@.take(te as int).take(
                    i as int,
                ).push(text@[i as int]));
            }
            i = i + 1;
        }
        proof {
            assert(text@.take(te as int).take(te as int) =~= text@.take(te as int));
        }
        let quit: Vec<char> = vec![':', 'q', 'u', 'i', 't'];
        let write: Vec<char> = vec![':', 'w', 'r', 'i', 't', 'e'];
        let edit: Vec<char> = vec![':', 'e', 'd', 'i', 't'];
        proof {
            assert(quit@ =~= quit_text());
            assert(write@ =~= write_text());
            assert(edit@ =~= edit_text());
        }
        if crate::unicode::text_eq(&tok, &quit) {
            Ok(Command::Quit)
        } else if crate::unicode::text_eq(&tok, &write) {
            Ok(Command::Write)
        } else if crate::unicode::text_eq(&tok, &edit) && te < text.len() && te + 1 < text.len() {
            let mut path: Vec<char> = Vec::new();
            let mut j: usize = te + 1;
            while j < text.len()
                invariant
                    te + 1 <= j <= text@.len(),
                    path@ == text@.subrange(te + 1, j as int),
                decreases text@.len() - j,
            {
                path.push(text[j]);
                proof {
                    assert(text@.subrange(te + 1, j + 1) =~= text@.subrange(te + 1, j as int).push(
                        text@[j as int],
                    ));
                }
                j = j + 1;
            }
            proof {
                assert(path@ =~= text@.skip(te + 1));
            }
            Ok(Command::Edit(path))
        } else {
            proof {
                if te < text@.len() && !(te + 1 < text@.len()) {
                    assert(text@.skip(te + 1).len() == 0);
                }
            }
            Err(Error::CommandNotFound(clone_chars(text)))
        }
    }
}

} // verus!
