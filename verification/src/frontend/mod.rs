//! What a front end shows of a session, and how it answers the keyboard.
//!
//! Nothing in here draws or reads a key: a front end hands in what was
//! pressed and gets back what to show.

pub mod terminal;
pub mod tui_ratatui;

use crate::backend::task::{Task, TaskView};
use vstd::prelude::*;
use vstd::string::*;

verus! {

/// One task as a line of the list: the box in front, the name, the
/// description, and a line feed.
pub open spec fn task_line(mark: Seq<char>, t: TaskView) -> Seq<char> {
    mark + t.name + ": "@ + t.description + "\n"@
}

/// Writes the line of `task` with the box `mark` in front.
pub fn task_line_of(mark: &str, task: &Task) -> (line: String)
    ensures
        line@ == task_line(mark@, task@),
{
    let mut line = String::from_str(mark);
    line.append(task.name.as_str());
    line.append(": ");
    line.append(task.description.as_str());
    line.append("\n");
    line
}

} // verus!
