//! The outcome of supervised background tasks: how the end of one task is reported, and
//! what the ends of many come to.

use crate::text::{join, joined, texts};
use vstd::prelude::*;
use vstd::string::*;

verus! {

/// An error with its causes: the messages from the outermost error to the innermost
/// cause.
#[derive(Debug)]
pub struct TaskError {
    pub chain: Vec<String>,
}

impl View for TaskError {
    type V = Seq<Seq<char>>;

    open spec fn view(&self) -> Seq<Seq<char>> {
        texts(self.chain@)
    }
}

impl TaskError {
    /// An error without cause.
    pub fn msg(message: String) -> (res: TaskError)
        ensures
            res@ == seq![message@],
    {
        let mut chain: Vec<String> = Vec::new();
        chain.push(message);
        proof {
            assert(texts(chain@) =~= seq![message@]);
        }
        TaskError { chain }
    }

    /// The error as the cause of another one with the given message.
    pub fn context(self, message: String) -> (res: TaskError)
        ensures
            res@ == seq![message@] + self@,
    {
        let mut chain: Vec<String> = Vec::new();
        chain.push(message);
        let mut i: usize = 0;
        while i < self.chain.len()
            invariant
                i <= self.chain.len(),
                texts(chain@) == seq![message@] + texts(self.chain@).take(i as int),
            decreases self.chain.len() - i,
        {
            let ghost before = texts(chain@);
            chain.push(self.chain[i].clone());
            proof {
                assert(texts(chain@) =~= before.push(self.chain@[i as int]@));
                assert(texts(chain@) =~= seq![message@] + texts(self.chain@).take(i + 1));
            }
            i += 1;
        }
        proof {
            assert(texts(self.chain@).take(self.chain.len() as int) =~= texts(self.chain@));
        }
        TaskError { chain }
    }

    /// The error with its causes in one line, a colon and a blank between each two.
    pub fn to_string(&self) -> (res: String)
        ensures
            res@ == joined(self@, ": "@),
    {
        join(&self.chain, ": ")
    }
}

/// What a panic carried: its text, where it carried a text.
pub open spec fn panic_text(payload: Option<Seq<char>>) -> Seq<char> {
    match payload {
        Some(text) => text,
        None => "<unknown>"@,
    }
}

/// The message of a panic: the text that the panic carried, or `<unknown>` where it
/// carried something else.
pub fn panic_message(payload: Option<String>) -> (res: String)
    ensures
        res@ == panic_text(crate::text::opt_text(payload)),
{
    match payload {
        Some(text) => text,
        None => String::from_str("<unknown>"),
    }
}

/// How a task came to its end.
#[derive(Debug)]
pub enum TaskEnd {
    /// The task returned without error.
    Completed,
    /// The task returned an error.
    Failed(TaskError),
    /// The task panicked; the text that the panic carried, where it carried a text.
    Panicked(Option<String>),
}

/// What a task's end is reported as.
pub open spec fn reported(name: Seq<char>, end: TaskEnd) -> Result<(), Seq<Seq<char>>> {
    match end {
        TaskEnd::Completed => Ok(()),
        TaskEnd::Failed(e) => Err(seq!["task "@ + name] + e@),
        TaskEnd::Panicked(payload) => Err(
            seq!["task "@ + name, "panic"@, panic_text(crate::text::opt_text(payload))],
        ),
    }
}

/// The view of a report.
pub open spec fn report_view(report: Result<(), TaskError>) -> Result<(), Seq<Seq<char>>> {
    match report {
        Ok(()) => Ok(()),
        Err(e) => Err(e@),
    }
}

/// Reports the end of a task.
///
/// An error is reported as the cause of an error that names the task. A panic is
/// reported as an error too, with the panic's message as its innermost cause.
pub fn task_report(name: &str, end: TaskEnd) -> (res: Result<(), TaskError>)
    ensures
        report_view(res) == reported(name@, end),
{
    let mut title = String::from_str("task ");
    title.append(name);
    match end {
        TaskEnd::Completed => Ok(()),
        TaskEnd::Failed(e) => Err(e.context(title)),
        TaskEnd::Panicked(payload) => {
            let cause = TaskError::msg(panic_message(payload));
            let error = cause.context(String::from_str("panic")).context(title);
            proof {
                assert(error@ =~= seq![
                    "task "@ + name@,
                    "panic"@,
                    panic_text(crate::text::opt_text(payload)),
                ]);
            }
            Err(error)
        },
    }
}

/// A panic shows in one line as `task <name>: panic: <message>`, with the text that the
/// panic carried as message, and `<unknown>` where it carried none.
pub proof fn lemma_panic_in_one_line(name: Seq<char>, payload: Option<String>)
    ensures
        reported(name, TaskEnd::Panicked(payload)) matches Err(chain) && joined(chain, ": "@)
            == "task "@ + name + ": panic: "@ + panic_text(crate::text::opt_text(payload)),
{
    let message = panic_text(crate::text::opt_text(payload));
    let chain = seq!["task "@ + name, "panic"@, message];
    reveal_with_fuel(joined, 4);
    reveal_strlit(": ");
    reveal_strlit("panic");
    reveal_strlit(": panic: ");
    assert(chain.drop_last() =~= seq!["task "@ + name, "panic"@]);
    assert(chain.drop_last().drop_last() =~= seq!["task "@ + name]);
    assert(joined(chain, ": "@) =~= "task "@ + name + ": panic: "@ + message);
}

/// What became of a task that was waited for.
#[derive(Debug)]
pub enum Joined {
    /// The task could not be joined.
    Crashed(TaskError),
    /// The task ended; its name and the report of its end.
    Finished { name: String, report: Result<(), TaskError> },
}

/// The failure that the first task to end stands for.
///
/// No task is meant to end while the others run: one that ends without error has
/// returned early.
pub open spec fn failure_of(joined: Joined) -> Seq<Seq<char>> {
    match joined {
        Joined::Crashed(e) => seq!["join"@] + e@,
        Joined::Finished { name, report } => match report {
            Ok(()) => seq!["task '"@ + name@ + "' returned early"@],
            Err(e) => e@,
        },
    }
}

/// Says what failure the first task to end stands for: see `failure_of`.
pub fn run_failure(joined: Joined) -> (res: TaskError)
    ensures
        res@ == failure_of(joined),
{
    match joined {
        Joined::Crashed(e) => e.context(String::from_str("join")),
        Joined::Finished { name, report } => match report {
            Ok(()) => {
                let mut message = String::from_str("task '");
                message.append(name.as_str());
                message.append("' returned early");
                TaskError::msg(message)
            },
            Err(e) => e,
        },
    }
}

/// What a task that was waited for at shutdown comes to.
pub open spec fn settled(joined: Joined) -> Result<(), Seq<Seq<char>>> {
    match joined {
        Joined::Crashed(e) => Err(seq!["join"@] + e@),
        Joined::Finished { name, report } => report_view(report),
    }
}

/// The first error of a list of results, or none where there is no error.
pub open spec fn first_error(results: Seq<Result<(), Seq<Seq<char>>>>) -> Result<
    (),
    Seq<Seq<char>>,
>
    decreases results.len(),
{
    if results.len() == 0 {
        Ok(())
    } else {
        match results[0] {
            Err(e) => Err(e),
            Ok(()) => first_error(results.drop_first()),
        }
    }
}

/// What all tasks that were waited for at shutdown come to, in the order in which they
/// ended: the first error wins.
pub fn shutdown_result(joined: Vec<Joined>) -> (res: Result<(), TaskError>)
    ensures
        report_view(res) == first_error(joined@.map_values(|j: Joined| settled(j))),
{
    let mut joined = joined;
    let ghost all = joined@.map_values(|j: Joined| settled(j));
    let ghost total = joined.len();
    // the list is walked from its end, so that items can be taken out of it
    let mut found: Result<(), TaskError> = Ok(());
    while joined.len() > 0
        invariant
            joined@.len() <= total,
            all.len() == total,
            joined@.map_values(|j: Joined| settled(j)) == all.take(joined@.len() as int),
            report_view(found) == first_error(all.skip(joined@.len() as int)),
        decreases joined@.len(),
    {
        let ghost n = joined@.len() as int;
        let ghost before = joined@.map_values(|j: Joined| settled(j));
        let last = joined.pop().unwrap();
        proof {
            assert(settled(last) == before[n - 1]);
            assert(before[n - 1] == all[n - 1]);
            assert(all.skip(n - 1).drop_first() =~= all.skip(n));
            assert(all.skip(n - 1)[0] == all[n - 1]);
            assert(joined@.map_values(|j: Joined| settled(j)) =~= all.take(n - 1));
        }
        match last {
            Joined::Crashed(e) => {
                found = Err(e.context(String::from_str("join")));
            },
            Joined::Finished { name, report } => {
                match report {
                    Ok(()) => {},
                    Err(e) => {
                        found = Err(e);
                    },
                }
            },
        }
    }
    proof {
        assert(all.skip(0) =~= all);
    }
    found
}

} // verus!
