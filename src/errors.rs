use crate::text::push_str;
use vstd::prelude::*;

verus! {

/// An error followed by its chain of causes, one block per cause:
/// the error, a blank line, then `Caused by:` and the cause, indented.
pub open spec fn error_chain(messages: Seq<Seq<char>>) -> Seq<char>
    decreases messages.len(),
{
    if messages.len() == 0 {
        Seq::empty()
    } else if messages.len() == 1 {
        messages[0] + "\n\n"@
    } else {
        error_chain(messages.drop_last()) + "Caused by:\n\t"@ + messages.last() + "\n"@
    }
}

/// Writes an error and its causes, outermost first, in the form that the
/// logs use.
pub fn error_chain_fmt(messages: &Vec<String>) -> (r: String)
    ensures
        r@ == error_chain(messages@.map_values(|m: String| m@)),
{
    let ghost views = messages@.map_values(|m: String| m@);
    let mut r = String::new();
    let mut i: usize = 0;
    while i < messages.len()
        invariant
            i <= messages@.len(),
            views == messages@.map_values(|m: String| m@),
            r@ == error_chain(views.subrange(0, i as int)),
        decreases messages@.len() - i,
    {
        assert(views.subrange(0, i + 1).drop_last() =~= views.subrange(0, i as int));
        if i == 0 {
            push_str(&mut r, messages[i].as_str());
            push_str(&mut r, "\n\n");
        } else {
            push_str(&mut r, "Caused by:\n\t");
            push_str(&mut r, messages[i].as_str());
            push_str(&mut r, "\n");
        }
        i = i + 1;
        assert(r@ =~= error_chain(views.subrange(0, i as int)));
    }
    assert(views.subrange(0, i as int) =~= views);
    r
}

/// How a supervised task ended.
#[derive(Debug, Clone, Copy, PartialEq, Eq, Structural)]
pub enum TaskExit {
    /// It returned successfully.
    Completed,
    /// It returned an error.
    Failed,
    /// It could not run to its end (it panicked or was cancelled).
    Aborted,
}

pub open spec fn exit_message(task_name: Seq<char>, exit: TaskExit) -> Seq<char> {
    match exit {
        TaskExit::Completed => task_name + " task completed successfully."@,
        TaskExit::Failed => task_name + " task failed"@,
        TaskExit::Aborted => task_name + " task failed to complete"@,
    }
}

/// The supervisor's report on a task that ended: whether it is an error,
/// and the line to log.
pub fn report_exit(task_name: &str, exit: TaskExit) -> (r: (bool, String))
    ensures
        r.0 == (exit != TaskExit::Completed),
        r.1@ == exit_message(task_name@, exit),
{
    let mut line = String::from_str(task_name);
    match exit {
        TaskExit::Completed => {
            push_str(&mut line, " task completed successfully.");
            (false, line)
        },
        TaskExit::Failed => {
            push_str(&mut line, " task failed");
            (true, line)
        },
        TaskExit::Aborted => {
            push_str(&mut line, " task failed to complete");
            (true, line)
        },
    }
}

} // verus!
