//! The session as plain text, for a terminal that is written to line by line.

use crate::backend::pomodoro::{by_completion, Pomodoro};
use crate::backend::task::{views, Task, TaskView};
use crate::frontend::{task_line, task_line_of};
use vstd::prelude::*;
use vstd::string::*;

verus! {

/// A display that shows a session as text.
pub struct TerminalDisplay {
    pub pomodoro: Pomodoro,
}

/// The lines of `tasks`, one after the other, each with the box `mark` in
/// front.
pub open spec fn task_lines(mark: Seq<char>, tasks: Seq<TaskView>) -> Seq<char>
    decreases tasks.len(),
{
    if tasks.len() == 0 {
        Seq::empty()
    } else {
        task_lines(mark, tasks.drop_last()) + task_line(mark, tasks.last())
    }
}

/// What the display shows of a session: the mode and the period, an empty
/// line, the tasks that are not done, and then the tasks that are done.
pub open spec fn screen(p: Pomodoro) -> Seq<char>
    recommends
        p.timer.well_formed(),
{
    p.banner() + "\n\n"@ + task_lines("[ ] "@, views(by_completion(p.tasks@, false))) + task_lines(
        "[x] "@,
        views(by_completion(p.tasks@, true)),
    )
}

/// Appends the lines of `tasks` to `out`.
fn push_task_lines(out: &mut String, mark: &str, tasks: &Vec<Task>)
    ensures
        final(out)@ == old(out)@ + task_lines(mark@, views(tasks@)),
{
    let len = tasks.len();
    let mut i: usize = 0;
    while i < len
        invariant
            len == tasks.len(),
            i <= len,
            out@ == old(out)@ + task_lines(mark@, views(tasks@.take(i as int))),
        decreases len - i,
    {
        proof {
            assert(views(tasks@.take(i + 1)).drop_last() == views(tasks@.take(i as int)));
        }
        let line = task_line_of(mark, &tasks[i]);
        out.append(line.as_str());
        i += 1;
    }
    assert(tasks@.take(len as int) == tasks@);
}

impl TerminalDisplay {
    pub fn new(pomodoro: Pomodoro) -> (display: Self)
        ensures
            display.pomodoro == pomodoro,
    {
        Self { pomodoro }
    }

    /// The text to show, without a line feed at its end.
    pub fn display(&self) -> (text: String)
        requires
            self.pomodoro.timer.well_formed(),
        ensures
            text@ == screen(self.pomodoro),
    {
        let mut text = self.pomodoro.to_string();
        text.append("\n\n");
        push_task_lines(&mut text, "[ ] ", &self.pomodoro.task_get_by_complete(false));
        push_task_lines(&mut text, "[x] ", &self.pomodoro.task_get_by_complete(true));
        text
    }
}

} // verus!
