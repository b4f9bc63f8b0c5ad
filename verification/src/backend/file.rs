//! The text in which the to-do list is kept between sessions: one task on a
//! line, as `name:description`, each line closed by a line feed.
//!
//! Reading and writing the file is up to the caller; this module turns the
//! text into tasks and tasks into the text.

use crate::backend::pomodoro::by_completion;
use crate::backend::task::{parse_range, parsed, views, Task, TaskView};
use crate::backend::text::{
    chars_of, find_char, first_index, lemma_first_index, lemma_first_index_is, lines, trimmed,
};
use vstd::prelude::*;
use vstd::string::*;

verus! {

/// The store of the to-do list.
pub struct PomoFile;

/// The line that keeps a task: its name, a colon, its description and a line
/// feed. Whether the task is done is not kept.
pub open spec fn record(t: TaskView) -> Seq<char> {
    t.name + seq![':'] + t.description + seq!['\n']
}

/// The text that keeps `tasks`: their lines, one after the other.
pub open spec fn stored_text(tasks: Seq<TaskView>) -> Seq<char>
    decreases tasks.len(),
{
    if tasks.len() == 0 {
        Seq::empty()
    } else {
        stored_text(tasks.drop_last()) + record(tasks.last())
    }
}

/// The tasks that the text `data` keeps: one for each line that is not
/// empty, none of them done.
pub open spec fn stored_tasks(data: Seq<char>) -> Seq<TaskView> {
    lines(data).filter(|line: Seq<char>| line.len() > 0).map_values(|line: Seq<char>| parsed(line))
}

/// The tasks of a text are the task of its first line, if that line is not
/// empty, and then the tasks of the text behind that line.
pub proof fn lemma_stored_tasks_unfold(data: Seq<char>)
    ensures
        stored_tasks(data) == ({
            let k = first_index(data, '\n');
            let first = if k > 0 {
                seq![parsed(data.take(k))]
            } else {
                Seq::empty()
            };
            if k < data.len() {
                first + stored_tasks(data.skip(k + 1))
            } else {
                first
            }
        }),
{
    let full = |line: Seq<char>| line.len() > 0;
    let k = first_index(data, '\n');
    lemma_first_index(data, '\n');
    if k < data.len() {
        Seq::lemma_filter_prepend(lines(data.skip(k + 1)), data.take(k), full);
    } else {
        assert(data.take(k) == data);
        Seq::lemma_filter_prepend(Seq::empty(), data, full);
    }
}

/// Whether reading the line of a task gives the task back: its name holds
/// no colon, neither text holds a line feed, and neither begins or ends with
/// white space.
pub open spec fn storable(t: TaskView) -> bool {
    &&& !t.name.contains(':')
    &&& !t.name.contains('\n')
    &&& !t.description.contains('\n')
    &&& trimmed(t.name) == t.name
    &&& trimmed(t.description) == t.description
}

/// The text that keeps a list of tasks begins with the line of the first.
pub proof fn lemma_stored_text_unfold(first: TaskView, rest: Seq<TaskView>)
    ensures
        stored_text(seq![first] + rest) == record(first) + stored_text(rest),
    decreases rest.len(),
{
    let all = seq![first] + rest;
    if rest.len() == 0 {
        assert(stored_text(all.drop_last()) == Seq::<char>::empty());
    } else {
        assert(all.drop_last() == seq![first] + rest.drop_last());
        lemma_stored_text_unfold(first, rest.drop_last());
    }
}

/// Reading the line of a task that can be stored gives the task back, not
/// done.
pub proof fn lemma_line_round_trip(t: TaskView)
    requires
        storable(t),
    ensures
        parsed(t.name + seq![':'] + t.description) == (TaskView { completed: false, ..t }),
{
    let line = t.name + seq![':'] + t.description;
    let k = t.name.len() as int;
    lemma_first_index_is(line, ':', k);
    assert(line.take(k) == t.name);
    assert(line.skip(k + 1) == t.description);
}

/// What is stored is read back: the text that keeps a list of tasks keeps
/// just these tasks, in their order and none of them done, provided that
/// each of them can be stored.
pub proof fn lemma_store_round_trip(tasks: Seq<TaskView>)
    requires
        forall|i: int| 0 <= i < tasks.len() ==> storable(#[trigger] tasks[i]),
    ensures
        stored_tasks(stored_text(tasks)) == tasks.map_values(
            |t: TaskView| TaskView { completed: false, ..t },
        ),
    decreases tasks.len(),
{
    let data = stored_text(tasks);
    lemma_stored_tasks_unfold(data);
    if tasks.len() > 0 {
        let first = tasks[0];
        let rest = tasks.drop_first();
        assert(tasks == seq![first] + rest);
        lemma_stored_text_unfold(first, rest);
        let line = first.name + seq![':'] + first.description;
        let k = line.len() as int;
        lemma_first_index_is(data, '\n', k);
        assert(data.take(k) == line);
        assert(data.skip(k + 1) == stored_text(rest));
        lemma_line_round_trip(first);
        lemma_store_round_trip(rest);
    }
}

/// What a session saves, a session reads back: the tasks that are not done,
/// provided that each of them can be stored.
pub proof fn lemma_saved_tasks_are_loaded(tasks: Seq<Task>)
    requires
        forall|i: int| 0 <= i < tasks.len() && !tasks[i].completed ==> storable(#[trigger] tasks[i]@),
    ensures
        stored_tasks(stored_text(views(by_completion(tasks, false)))) == views(
            by_completion(tasks, false),
        ),
{
    let kept = by_completion(tasks, false);
    let undone = |t: TaskView| TaskView { completed: false, ..t };
    assert forall|i: int| 0 <= i < kept.len() implies !(#[trigger] kept[i]).completed && storable(
        kept[i]@,
    ) by {
        tasks.lemma_filter_pred(|t: Task| t.completed == false, i);
        tasks.lemma_filter_contains_rev(|t: Task| t.completed == false, kept[i]);
    }
    lemma_store_round_trip(views(kept));
    assert(views(kept).map_values(undone) == views(kept));
}

impl PomoFile {
    /// Reads the tasks that the stored text `data` keeps.
    pub fn load(data: &str) -> (tasks: Vec<Task>)
        ensures
            views(tasks@) == stored_tasks(data@),
    {
        let v = chars_of(data);
        let len = v.len();
        let mut tasks: Vec<Task> = Vec::new();
        let mut start: usize = 0;
        assert(v@.skip(0) == v@);
        loop
            invariant_except_break
                start <= len,
                stored_tasks(data@) == views(tasks@) + stored_tasks(v@.skip(start as int)),
            invariant
                v@ == data@,
                len == v.len(),
            ensures
                views(tasks@) == stored_tasks(data@),
            decreases len - start,
        {
            let ghost tail = v@.skip(start as int);
            let k = find_char(&v, start, len, '\n');
            proof {
                assert(tail.take(k - start) == v@.subrange(start as int, k as int));
                lemma_stored_tasks_unfold(tail);
            }
            if k > start {
                let task = parse_range(data, &v, start, k);
                tasks.push(task);
            }
            if k == len {
                break ;
            }
            assert(tail.skip(k - start + 1) == v@.skip(k + 1));
            start = k + 1;
        }
        tasks
    }

    /// Writes the text that keeps `tasks`, all of them.
    pub fn save(tasks: Vec<Task>) -> (data: String)
        ensures
            data@ == stored_text(views(tasks@)),
    {
        let mut data = String::new();
        let len = tasks.len();
        let mut i: usize = 0;
        while i < len
            invariant
                len == tasks.len(),
                i <= len,
                data@ == stored_text(views(tasks@.take(i as int))),
            decreases len - i,
        {
            proof {
                reveal_strlit(":");
                reveal_strlit("\n");
                assert(views(tasks@.take(i + 1)).drop_last() == views(tasks@.take(i as int)));
            }
            data.append(tasks[i].name.as_str());
            data.append(":");
            data.append(tasks[i].description.as_str());
            data.append("\n");
            i += 1;
        }
        assert(tasks@.take(len as int) == tasks@);
        data
    }
}

} // verus!
