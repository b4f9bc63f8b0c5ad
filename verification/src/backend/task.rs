//! One entry of the to-do list.

use crate::backend::text::{chars_of, find_char, first_index, trim_bounds, trimmed};
use vstd::prelude::*;
use vstd::std_specs::cmp::PartialEqSpecImpl;
use vstd::string::*;

verus! {

/// Something to do, with a name, a description, and whether it is done.
#[derive(Debug)]
pub struct Task {
    pub name: String,
    pub description: String,
    pub completed: bool,
}

/// What a task holds, with its two texts as sequences of characters.
pub struct TaskView {
    pub name: Seq<char>,
    pub description: Seq<char>,
    pub completed: bool,
}

impl View for Task {
    type V = TaskView;

    open spec fn view(&self) -> TaskView {
        TaskView { name: self.name@, description: self.description@, completed: self.completed }
    }
}

/// What each task of `tasks` holds.
pub open spec fn views(tasks: Seq<Task>) -> Seq<TaskView> {
    tasks.map_values(|t: Task| t@)
}

/// The task that a line of text stands for. The first colon parts the name
/// from the description, and the description is all that follows it; a line
/// without a colon is a name alone. White space around either is dropped.
pub open spec fn parsed(line: Seq<char>) -> TaskView {
    let k = first_index(line, ':');
    TaskView {
        name: trimmed(line.take(k)),
        description: if 0 <= k < line.len() {
            trimmed(line.skip(k + 1))
        } else {
            Seq::empty()
        },
        completed: false,
    }
}

/// The task written out over four lines.
pub open spec fn card(t: TaskView) -> Seq<char> {
    "Task\n\t name: "@ + t.name + "\n\tdescription: "@ + t.description + "\n\t completed: "@ + (
    if t.completed {
        "true"@
    } else {
        "false"@
    })
}

/// Reads the task that the characters of `v` from `lo` up to `hi` stand for. The
/// text `s`, which `v` holds the characters of, is what the name and the
/// description are cut from.
pub(crate) fn parse_range(s: &str, v: &Vec<char>, lo: usize, hi: usize) -> (t: Task)
    requires
        v@ == s@,
        lo <= hi <= v.len(),
    ensures
        t@ == parsed(v@.subrange(lo as int, hi as int)),
{
    let ghost line = v@.subrange(lo as int, hi as int);
    let k = find_char(v, lo, hi, ':');
    let (a, b) = trim_bounds(v, lo, k);
    assert(line.take(k - lo) == v@.subrange(lo as int, k as int));
    let name = s.substring_char(a, b).to_owned();
    let description = if k < hi {
        let (c, d) = trim_bounds(v, k + 1, hi);
        assert(line.skip(k - lo + 1) == v@.subrange(k + 1, hi as int));
        s.substring_char(c, d).to_owned()
    } else {
        String::new()
    };
    Task { name, description, completed: false }
}

impl Task {
    /// A task that is not done yet.
    pub fn new(name: &str, description: &str) -> (t: Self)
        ensures
            t@ == (TaskView { name: name@, description: description@, completed: false }),
    {
        Self { name: name.to_owned(), description: description.to_owned(), completed: false }
    }

    /// The task that the line `s` stands for, not done yet.
    pub fn from_str(s: &str) -> (t: Self)
        ensures
            t@ == parsed(s@),
    {
        let v = chars_of(s);
        assert(v@.subrange(0, v@.len() as int) == v@);
        parse_range(s, &v, 0, v.len())
    }

    pub fn to_string(&self) -> (s: String)
        ensures
            s@ == card(self@),
    {
        let mut r = String::from_str("Task\n\t name: ");
        r.append(self.name.as_str());
        r.append("\n\tdescription: ");
        r.append(self.description.as_str());
        r.append("\n\t completed: ");
        if self.completed {
            r.append("true");
        } else {
            r.append("false");
        }
        r
    }
}

impl Clone for Task {
    fn clone(&self) -> (t: Self)
        ensures
            t == *self,
    {
        Task {
            name: self.name.clone(),
            description: self.description.clone(),
            completed: self.completed,
        }
    }
}

impl PartialEq for Task {
    /// Two tasks are equal when they agree in all three fields.
    fn eq(&self, other: &Self) -> (r: bool) {
        self.name == other.name && self.description == other.description && self.completed
            == other.completed
    }
}

impl PartialEqSpecImpl for Task {
    open spec fn obeys_eq_spec() -> bool {
        true
    }

    open spec fn eq_spec(&self, other: &Self) -> bool {
        self@ == other@
    }
}

} // verus!
