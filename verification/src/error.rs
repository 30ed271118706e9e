//! How a tool call fails, and how a chain of errors is written as one message.

use crate::text::{ends_with, str_ends_with, texts};
use vstd::prelude::*;
use vstd::string::*;

verus! {

/// The kinds of failure that the protocol of tool calls knows.
#[derive(Debug, Clone, Copy, PartialEq, Eq, Structural)]
pub enum ErrorKind {
    /// The caller's arguments make no sense together.
    InvalidParams,
    /// What the caller asked for does not exist.
    ResourceNotFound,
    /// Anything else.
    InternalError,
}

/// A failed tool call: its kind and a message for the caller.
#[derive(Debug)]
pub struct McpError {
    pub kind: ErrorKind,
    pub message: String,
}

/// A chain of errors written as one message.
///
/// The messages stand in a row, from the outermost error to its innermost cause, with a
/// colon and a blank between each two. An error whose message already ends what is
/// written so far is not written again: many errors show their cause themselves.
pub open spec fn flattened(chain: Seq<Seq<char>>) -> Seq<char>
    decreases chain.len(),
{
    if chain.len() == 0 {
        Seq::empty()
    } else {
        let head = flattened(chain.drop_last());
        let last = chain.last();
        if ends_with(head, last) {
            head
        } else if head.len() == 0 {
            last
        } else {
            head + ": "@ + last
        }
    }
}

/// Writes a chain of errors as one message: see `flattened`. `chain` holds the message
/// of the error, then that of its cause, then that of the cause's cause, and so on.
pub fn format_error_chain(chain: &Vec<String>) -> (res: String)
    ensures
        res@ == flattened(texts(chain@)),
{
    let mut out = String::new();
    let mut i: usize = 0;
    while i < chain.len()
        invariant
            i <= chain.len(),
            out@ == flattened(texts(chain@).take(i as int)),
        decreases chain.len() - i,
    {
        let message = chain[i].as_str();
        proof {
            let all = texts(chain@);
            assert(all.take(i + 1).drop_last() =~= all.take(i as int));
            assert(all.take(i + 1).last() == message@);
        }
        if !str_ends_with(out.as_str(), message) {
            if !out.as_str().is_empty() {
                out.append(": ");
            }
            out.append(message);
        }
        i += 1;
    }
    proof {
        assert(texts(chain@).take(chain.len() as int) =~= texts(chain@));
    }
    out
}

/// Treats a chain of errors as an internal error.
pub fn internal(chain: &Vec<String>) -> (res: McpError)
    ensures
        res.kind == ErrorKind::InternalError,
        res.message@ == flattened(texts(chain@)),
{
    McpError { kind: ErrorKind::InternalError, message: format_error_chain(chain) }
}

/// Treats a chain of errors as an internal error, with a word in front that says what
/// was under way.
pub fn internal_with_context(context: &str, chain: &Vec<String>) -> (res: McpError)
    ensures
        res.kind == ErrorKind::InternalError,
        res.message@ == flattened(seq![context@] + texts(chain@)),
{
    let mut all: Vec<String> = Vec::new();
    all.push(String::from_str(context));
    let mut i: usize = 0;
    while i < chain.len()
        invariant
            i <= chain.len(),
            texts(all@) == seq![context@] + texts(chain@).take(i as int),
        decreases chain.len() - i,
    {
        let ghost before = texts(all@);
        all.push(chain[i].clone());
        proof {
            assert(texts(all@) =~= before.push(chain@[i as int]@));
            assert(texts(all@) =~= seq![context@] + texts(chain@).take(i + 1));
        }
        i += 1;
    }
    proof {
        assert(texts(chain@).take(chain.len() as int) =~= texts(chain@));
    }
    internal(&all)
}

/// An internal error with the given message.
pub fn internal_error(message: &str) -> (res: McpError)
    ensures
        res.kind == ErrorKind::InternalError,
        res.message@ == message@,
{
    McpError { kind: ErrorKind::InternalError, message: String::from_str(message) }
}

/// A value was expected: its absence is reported as not found, with `what` as message.
pub fn not_found<T>(value: Option<T>, what: String) -> (res: Result<T, McpError>)
    ensures
        match res {
            Ok(v) => value == Some(v),
            Err(e) => value is None && e.kind == ErrorKind::ResourceNotFound && e.message@
                == what@,
        },
{
    match value {
        Some(v) => Ok(v),
        None => Err(McpError { kind: ErrorKind::ResourceNotFound, message: what }),
    }
}

/// A value is required: its absence is reported as invalid parameters, with the message
/// `<what> is required`.
pub fn required<T>(value: Option<T>, what: String) -> (res: Result<T, McpError>)
    ensures
        match res {
            Ok(v) => value == Some(v),
            Err(e) => value is None && e.kind == ErrorKind::InvalidParams && e.message@ == what@
                + " is required"@,
        },
{
    match value {
        Some(v) => Ok(v),
        None => {
            let mut message = what;
            message.append(" is required");
            Err(McpError { kind: ErrorKind::InvalidParams, message })
        },
    }
}

} // verus!
