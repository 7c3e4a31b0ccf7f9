//! The editor's error values and their user-facing messages.

use crate::unicode::append_chars;
use vstd::prelude::*;

verus! {

/// What can go wrong while executing a prompt command.  Input/output
/// failures happen outside the library; the caller hands their description
/// in as plain text.
#[derive(Debug)]
pub enum Error {
    /// The prompt text named no known command.
    CommandNotFound(Vec<char>),
    /// A write was asked of a buffer with no associated file.
    NoFileName,
    /// Loading or saving failed for another reason than a missing file.
    IoError(Vec<char>),
}

/// The mathematical value of an [`Error`].
pub ghost enum ErrView {
    CommandNotFound(Seq<char>),
    NoFileName,
    IoError(Seq<char>),
}

impl View for Error {
    type V = ErrView;

    open spec fn view(&self) -> ErrView {
        match self {
            Error::CommandNotFound(t) => ErrView::CommandNotFound(t@),
            Error::NoFileName => ErrView::NoFileName,
            Error::IoError(t) => ErrView::IoError(t@),
        }
    }
}

pub open spec fn command_not_found_prefix() -> Seq<char> {
    seq!['C', 'o', 'm', 'm', 'a', 'n', 'd', ' ', 'n', 'o', 't', ' ', 'f', 'o', 'u', 'n', 'd', ':', ' ']
}

pub open spec fn no_file_name_msg() -> Seq<char> {
    seq!['N', 'o', ' ', 'f', 'i', 'l', 'e', ' ', 'n', 'a', 'm', 'e', ' ', 'g', 'i', 'v', 'e', 'n']
}

pub open spec fn io_error_prefix() -> Seq<char> {
    seq!['I', 'O', ' ', 'e', 'r', 'r', 'o', 'r', ':', ' ']
}

/// The message text shown for each error.
pub open spec fn error_message_spec(e: ErrView) -> Seq<char> {
    match e {
        ErrView::CommandNotFound(name) => command_not_found_prefix() + name,
        ErrView::NoFileName => no_file_name_msg(),
        ErrView::IoError(cause) => io_error_prefix() + cause,
    }
}

/// Renders an error as the text shown on the prompt line.
pub fn error_message(err: Error) -> (msg: Vec<char>)
    ensures
        msg@ == error_message_spec(err@),
{
    match err {
        Error::CommandNotFound(name) => {
            let mut msg = vec!['C', 'o', 'm', 'm', 'a', 'n', 'd', ' ', 'n', 'o', 't', ' ', 'f', 'o', 'u', 'n', 'd', ':', ' '];
            proof {
                assert(msg@ =~= command_not_found_prefix());
            }
            append_chars(&mut msg, &name);
            msg
        },
        Error::NoFileName => {
            let msg = vec!['N', 'o', ' ', 'f', 'i', 'l', 'e', ' ', 'n', 'a', 'm', 'e', ' ', 'g', 'i', 'v', 'e', 'n'];
            proof {
                assert(msg@ =~= no_file_name_msg());
            }
            msg
        },
        Error::IoError(cause) => {
            let mut msg = vec!['I', 'O', ' ', 'e', 'r', 'r', 'o', 'r', ':', ' '];
            proof {
                assert(msg@ =~= io_error_prefix());
            }
            append_chars(&mut msg, &cause);
            msg
        },
    }
}

} // verus!
