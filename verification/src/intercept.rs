//! Copies of the byte streams to and from other processes, kept in files for debugging:
//! what is copied, and what the writer of a file does with it.

use crate::lang::Quirks;
use crate::text::opt_text;
use vstd::prelude::*;
use vstd::slice::*;
use vstd::string::*;

verus! {

/// Message from a fork of a stream to the task that writes the copy.
///
/// Messages are sent after the original stream has done its part.
#[derive(Debug)]
pub enum Message {
    /// Write data: what the original stream took or gave.
    Data(Vec<u8>),
    /// Flush buffers.
    Flush,
    /// Shut down file.
    Shutdown,
}

/// The message that copies a write: the bytes of `buf` that the stream took.
pub fn written_message(buf: &[u8], written: usize) -> (res: Message)
    requires
        written <= buf@.len(),
    ensures
        res matches Message::Data(data) && data@ == buf@.take(written as int),
{
    let taken = slice_to_vec(slice_subrange(buf, 0, written));
    proof {
        assert(taken@ =~= buf@.take(written as int));
    }
    Message::Data(taken)
}

/// The message that copies a read: the bytes that the stream added to the `before`
/// bytes that were there already.
pub fn read_message(filled: &[u8], before: usize) -> (res: Message)
    requires
        before <= filled@.len(),
    ensures
        res matches Message::Data(data) && data@ == filled@.skip(before as int),
{
    let added = slice_to_vec(slice_subrange(filled, before, filled.len()));
    proof {
        assert(added@ =~= filled@.skip(before as int));
    }
    Message::Data(added)
}

/// What the writer of a copy does next.
#[derive(Debug)]
pub enum WriterAction {
    /// Append the bytes to the file, and go on.
    Write(Vec<u8>),
    /// Flush the file, and go on.
    Flush,
    /// Flush the file, close it, and end.
    Close,
}

/// What the writer of a copy does with the next message. `None` stands for the end of
/// the messages, or for the request to stop: both close the file, as the message to shut
/// down does.
pub fn writer_action(next: Option<Message>) -> (res: WriterAction)
    ensures
        match next {
            Some(Message::Data(data)) => res matches WriterAction::Write(bytes) && bytes@
                == data@,
            Some(Message::Flush) => res is Flush,
            Some(Message::Shutdown) => res is Close,
            None => res is Close,
        },
{
    match next {
        Some(Message::Data(data)) => WriterAction::Write(data),
        Some(Message::Flush) => WriterAction::Flush,
        Some(Message::Shutdown) => WriterAction::Close,
        None => WriterAction::Close,
    }
}

/// The streams that can be copied.
#[derive(Debug, Clone, Copy, PartialEq, Eq, Structural)]
pub enum InterceptedStream {
    LspStdin,
    LspStdout,
    LspStderr,
    McpStdin,
    McpStdout,
}

impl InterceptedStream {
    /// The name of the file that holds the copy of a stream.
    pub open spec fn file_name(self) -> Seq<char> {
        match self {
            InterceptedStream::LspStdin => "lsp.stdin.txt"@,
            InterceptedStream::LspStdout => "lsp.stdout.txt"@,
            InterceptedStream::LspStderr => "lsp.stderr.txt"@,
            InterceptedStream::McpStdin => "mcp.stdin.txt"@,
            InterceptedStream::McpStdout => "mcp.stdout.txt"@,
        }
    }

    /// The name of the file that holds the copy of a stream, in the directory of copies.
    pub fn log_file(&self) -> (res: &'static str)
        ensures
            res@ == self.file_name(),
    {
        match self {
            InterceptedStream::LspStdin => "lsp.stdin.txt",
            InterceptedStream::LspStdout => "lsp.stdout.txt",
            InterceptedStream::LspStderr => "lsp.stderr.txt",
            InterceptedStream::McpStdin => "mcp.stdin.txt",
            InterceptedStream::McpStdout => "mcp.stdout.txt",
        }
    }
}

/// How a language server is started.
#[derive(Debug)]
pub struct LaunchPlan {
    /// The command to run, in the workspace as working directory.
    pub command: String,
    /// The file that takes the server's error output; without one the server writes to
    /// the error output of the bridge.
    pub stderr_log: Option<String>,
    /// The file that takes a copy of what is written to the server.
    pub stdin_log: Option<String>,
    /// The file that takes a copy of what is read from the server.
    pub stdout_log: Option<String>,
    /// Whether the server is killed once the bridge lets go of it.
    pub kill_on_drop: bool,
}

/// Plans the start of a language server. With interception the server's three streams
/// are copied to files, without it none is.
pub fn launch_plan(quirks: &Quirks, intercept_io: bool) -> (res: LaunchPlan)
    ensures
        res.command@ == quirks.server_command@,
        res.kill_on_drop,
        opt_text(res.stderr_log) == if intercept_io {
            Some(InterceptedStream::LspStderr.file_name())
        } else {
            None
        },
        opt_text(res.stdin_log) == if intercept_io {
            Some(InterceptedStream::LspStdin.file_name())
        } else {
            None
        },
        opt_text(res.stdout_log) == if intercept_io {
            Some(InterceptedStream::LspStdout.file_name())
        } else {
            None
        },
{
    let command = quirks.server_command.clone();
    if intercept_io {
        LaunchPlan {
            command,
            stderr_log: Some(String::from_str(InterceptedStream::LspStderr.log_file())),
            stdin_log: Some(String::from_str(InterceptedStream::LspStdin.log_file())),
            stdout_log: Some(String::from_str(InterceptedStream::LspStdout.log_file())),
            kill_on_drop: true,
        }
    } else {
        LaunchPlan {
            command,
            stderr_log: None,
            stdin_log: None,
            stdout_log: None,
            kill_on_drop: true,
        }
    }
}

} // verus!
