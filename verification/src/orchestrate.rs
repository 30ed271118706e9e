//! Taking the bridge down: the steps that are taken in a row, whatever the earlier ones
//! came to, and the result that they add up to.

use crate::tasks::{report_view, TaskError};
use vstd::prelude::*;
use vstd::string::*;

verus! {

/// Why the bridge stopped serving.
#[derive(Debug)]
pub enum Stopped {
    /// The service came to its end, or was asked to.
    Service(Result<(), TaskError>),
    /// A background task failed.
    Task(TaskError),
}

/// How the process of the language server ended.
#[derive(Debug)]
pub enum ChildExit {
    /// Waiting for the process failed.
    Failed(TaskError),
    /// The process exited; whether it reported success, and its status in words.
    Exited { success: bool, status: String },
}

/// What happened while the bridge was taken down.
#[derive(Debug)]
pub enum TeardownEvent {
    ServerShutdown(Result<(), TaskError>),
    ServerExited(Result<(), TaskError>),
    Child(ChildExit),
    Tasks(Result<(), TaskError>),
}

/// The step that is due while the bridge is taken down.
#[derive(Debug, Clone, Copy, PartialEq, Eq, Structural)]
pub enum TeardownStage {
    /// Ask the language server to shut down.
    ShuttingDownServer,
    /// Tell the language server to exit.
    ExitingServer,
    /// Wait for the process of the language server.
    AwaitingChild,
    /// Cancel the background tasks and wait for them.
    ShuttingDownTasks,
    /// Nothing is left to do.
    Done,
}

/// The state of taking the bridge down: the step that is due, and what the steps so far
/// have come to.
#[derive(Debug)]
pub struct Teardown {
    pub stage: TeardownStage,
    pub result: Result<(), TaskError>,
}

/// A result with a word in front of its error that says what failed.
pub open spec fn in_context(context: Seq<char>, result: Result<(), Seq<Seq<char>>>) -> Result<
    (),
    Seq<Seq<char>>,
> {
    match result {
        Ok(()) => Ok(()),
        Err(chain) => Err(seq![context] + chain),
    }
}

/// What two steps in a row come to: the error of the first, else what the second comes to.
pub open spec fn and_then(
    so_far: Result<(), Seq<Seq<char>>>,
    step: Result<(), Seq<Seq<char>>>,
) -> Result<(), Seq<Seq<char>>> {
    match so_far {
        Ok(()) => step,
        Err(e) => Err(e),
    }
}

/// What the end of the server's process comes to: it has to exit with success.
pub open spec fn child_result(exit: ChildExit) -> Result<(), Seq<Seq<char>>> {
    match exit {
        ChildExit::Failed(e) => Err(seq!["terminate language server"@] + e@),
        ChildExit::Exited { success, status } => if success {
            Ok(())
        } else {
            Err(seq!["LSP exit was not clean: "@ + status@])
        },
    }
}

/// What the bridge starts to take itself down with.
pub open spec fn stopped_result(stopped: Stopped) -> Result<(), Seq<Seq<char>>> {
    match stopped {
        Stopped::Service(result) => in_context("main"@, report_view(result)),
        Stopped::Task(e) => Err(seq!["tasks"@] + e@),
    }
}

fn with_context(context: &str, result: Result<(), TaskError>) -> (res: Result<(), TaskError>)
    ensures
        report_view(res) == in_context(context@, report_view(result)),
{
    match result {
        Ok(()) => Ok(()),
        Err(e) => Err(e.context(String::from_str(context))),
    }
}

fn and(so_far: Result<(), TaskError>, step: Result<(), TaskError>) -> (res: Result<(), TaskError>)
    ensures
        report_view(res) == and_then(report_view(so_far), report_view(step)),
{
    match so_far {
        Ok(()) => step,
        Err(e) => Err(e),
    }
}

impl Teardown {
    /// Starts to take the bridge down: the language server is asked to shut down first.
    pub fn start(stopped: Stopped) -> (res: Teardown)
        ensures
            res.stage == TeardownStage::ShuttingDownServer,
            report_view(res.result) == stopped_result(stopped),
    {
        let result = match stopped {
            Stopped::Service(result) => with_context("main", result),
            Stopped::Task(e) => Err(e.context(String::from_str("tasks"))),
        };
        Teardown { stage: TeardownStage::ShuttingDownServer, result }
    }

    /// The process's exit code once the bridge is down: zero where no step failed.
    pub fn exit_code(&self) -> (res: u8)
        ensures
            res == if self.result is Ok {
                0u8
            } else {
                1u8
            },
    {
        match self.result {
            Ok(()) => 0,
            Err(_) => 1,
        }
    }

    /// Takes in what a step came to and moves on to the next step.
    ///
    /// A server that does not shut down is not told to exit. Apart from that every step
    /// is taken, and the first error of all is kept. An event that does not belong to the
    /// step that is due changes nothing.
    pub fn on_event(self, event: TeardownEvent) -> (res: Teardown)
        ensures
            match (self.stage, event) {
                (TeardownStage::ShuttingDownServer, TeardownEvent::ServerShutdown(outcome)) => {
                    &&& res.stage == if outcome is Ok {
                        TeardownStage::ExitingServer
                    } else {
                        TeardownStage::AwaitingChild
                    }
                    &&& report_view(res.result) == and_then(
                        report_view(self.result),
                        in_context("shutdown language server"@, report_view(outcome)),
                    )
                },
                (TeardownStage::ExitingServer, TeardownEvent::ServerExited(outcome)) => {
                    &&& res.stage == TeardownStage::AwaitingChild
                    &&& report_view(res.result) == and_then(
                        report_view(self.result),
                        in_context("exit language server"@, report_view(outcome)),
                    )
                },
                (TeardownStage::AwaitingChild, TeardownEvent::Child(exit)) => {
                    &&& res.stage == TeardownStage::ShuttingDownTasks
                    &&& report_view(res.result) == and_then(
                        report_view(self.result),
                        child_result(exit),
                    )
                },
                (TeardownStage::ShuttingDownTasks, TeardownEvent::Tasks(outcome)) => {
                    &&& res.stage == TeardownStage::Done
                    &&& report_view(res.result) == and_then(
                        report_view(self.result),
                        in_context("task shutdown"@, report_view(outcome)),
                    )
                },
                _ => res.stage == self.stage && report_view(res.result) == report_view(
                    self.result,
                ),
            },
    {
        let stage = self.stage;
        let so_far = self.result;
        match event {
            TeardownEvent::ServerShutdown(outcome) => match stage {
                TeardownStage::ShuttingDownServer => {
                    let next = match outcome {
                        Ok(()) => TeardownStage::ExitingServer,
                        Err(_) => TeardownStage::AwaitingChild,
                    };
                    Teardown {
                        stage: next,
                        result: and(so_far, with_context("shutdown language server", outcome)),
                    }
                },
                _ => Teardown { stage, result: so_far },
            },
            TeardownEvent::ServerExited(outcome) => match stage {
                TeardownStage::ExitingServer => Teardown {
                    stage: TeardownStage::AwaitingChild,
                    result: and(so_far, with_context("exit language server", outcome)),
                },
                _ => Teardown { stage, result: so_far },
            },
            TeardownEvent::Child(exit) => match stage {
                TeardownStage::AwaitingChild => {
                    let outcome = match exit {
                        ChildExit::Failed(e) => Err(
                            e.context(String::from_str("terminate language server")),
                        ),
                        ChildExit::Exited { success, status } => if success {
                            Ok(())
                        } else {
                            let mut message = String::from_str("LSP exit was not clean: ");
                            message.append(status.as_str());
                            Err(TaskError::msg(message))
                        },
                    };
                    Teardown {
                        stage: TeardownStage::ShuttingDownTasks,
                        result: and(so_far, outcome),
                    }
                },
                _ => Teardown { stage, result: so_far },
            },
            TeardownEvent::Tasks(outcome) => match stage {
                TeardownStage::ShuttingDownTasks => Teardown {
                    stage: TeardownStage::Done,
                    result: and(so_far, with_context("task shutdown", outcome)),
                },
                _ => Teardown { stage, result: so_far },
            },
        }
    }
}

} // verus!
