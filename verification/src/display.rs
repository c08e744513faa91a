//! The task list as text.

use crate::decimal::{decimal_digits, push_decimal};
use crate::task::{Task, TaskView};
use vstd::prelude::*;
use vstd::string::*;

verus! {

/// What stands for a list without tasks.
pub const NO_TASK_TEXT: &'static str = "No task yet";

/// The mark in a task's checkbox.
pub open spec fn mark(is_done: bool) -> char {
    if is_done {
        'x'
    } else {
        ' '
    }
}

/// The line for `task` at `position`, counted from one: the position, the
/// checkbox, the description, and a line feed.
pub open spec fn task_line(position: nat, task: TaskView) -> Seq<char> {
    decimal_digits(position) + seq![' ', '[', mark(task.is_done), ']', ' '] + task.description
        + seq!['\n']
}

/// The lines of `tasks`, one after the other, in the order of the list.
pub open spec fn task_lines(tasks: Seq<TaskView>) -> Seq<char>
    decreases tasks.len(),
{
    if tasks.len() == 0 {
        Seq::empty()
    } else {
        task_lines(tasks.drop_last()) + task_line(tasks.len(), tasks.last())
    }
}

/// The text that shows `tasks`.
pub open spec fn rendering(tasks: Seq<TaskView>) -> Seq<char> {
    if tasks.len() == 0 {
        NO_TASK_TEXT@
    } else {
        task_lines(tasks)
    }
}

/// Renders `tasks` as text: one line for each task, or a fixed sentence
/// where there is none.
pub fn get_string_representation_from_task_list(tasks: &Vec<Task>) -> (text: String)
    ensures
        text@ == rendering(tasks.deep_view()),
{
    if tasks.is_empty() {
        return NO_TASK_TEXT.to_owned();
    }
    let ghost views = tasks.deep_view();
    let mut text = String::new();
    let mut i: usize = 0;
    while i < tasks.len()
        invariant
            i <= tasks@.len(),
            views == tasks.deep_view(),
            text@ == task_lines(views.take(i as int)),
        decreases tasks@.len() - i,
    {
        let task = &tasks[i];
        let ghost before = text@;
        push_decimal(&mut text, i + 1);
        text.append(if task.is_done { " [x] " } else { " [ ] " });
        text.append(task.description.as_str());
        text.append("\n");
        proof {
            reveal_strlit(" [x] ");
            reveal_strlit(" [ ] ");
            reveal_strlit("\n");
            let shown = views.take(i + 1);
            assert(shown.drop_last() =~= views.take(i as int));
            assert(shown.last() == task@);
            assert(text@ =~= before + task_line((i + 1) as nat, task@));
        }
        i += 1;
    }
    assert(views.take(i as int) =~= views);
    text
}

} // verus!
