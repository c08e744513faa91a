//! Tasks, and what each action does to the list of them.

use crate::action::{Action, ActionView, CommandError};
use vstd::prelude::*;

verus! {

/// One entry of the list: what is to be done, and whether it has been.
#[derive(Debug, PartialEq)]
pub struct Task {
    pub description: String,
    pub is_done: bool,
}

/// A task as a mathematical value.
pub struct TaskView {
    pub description: Seq<char>,
    pub is_done: bool,
}

impl View for Task {
    type V = TaskView;

    open spec fn view(&self) -> TaskView {
        TaskView { description: self.description@, is_done: self.is_done }
    }
}

impl DeepView for Task {
    type V = TaskView;

    open spec fn deep_view(&self) -> TaskView {
        self@
    }
}

/// Whether `action` can be carried out on `tasks`: a removal needs the task
/// that it names.
pub open spec fn can_apply(tasks: Seq<TaskView>, action: ActionView) -> bool {
    action matches ActionView::Remove(index) ==> index < tasks.len()
}

/// Whether carrying out `action` on `tasks` succeeds, and the error where it
/// does not: the task to remove is not in the list.
pub open spec fn update_outcome(tasks: Seq<TaskView>, action: ActionView) -> Result<
    (),
    CommandError,
> {
    if can_apply(tasks, action) {
        Ok(())
    } else {
        Err(CommandError::IndexOutOfRange)
    }
}

/// The list that `action` makes of `tasks`.
///
/// A new task goes to the end and is still to do. Marking a task changes
/// nothing but its mark, and is ignored where the list has no such task.
/// Removing a task moves all later ones up by one place; where the list has
/// no such task, it stays as it is.
pub open spec fn apply(tasks: Seq<TaskView>, action: ActionView) -> Seq<TaskView> {
    match action {
        ActionView::Add(text) => tasks.push(TaskView { description: text, is_done: false }),
        ActionView::Quit => tasks,
        ActionView::Remove(index) => if index < tasks.len() {
            tasks.remove(index as int)
        } else {
            tasks
        },
        ActionView::SetToDo(index) => if index < tasks.len() {
            tasks.update(
                index as int,
                TaskView { description: tasks[index as int].description, is_done: false },
            )
        } else {
            tasks
        },
        ActionView::SetDone(index) => if index < tasks.len() {
            tasks.update(
                index as int,
                TaskView { description: tasks[index as int].description, is_done: true },
            )
        } else {
            tasks
        },
    }
}

/// Marking a task as to do takes back marking it as done, where it was
/// still to do before.
pub proof fn lemma_set_to_do_reverses_set_done(tasks: Seq<TaskView>, index: nat)
    requires
        index < tasks.len() ==> !tasks[index as int].is_done,
    ensures
        apply(apply(tasks, ActionView::SetDone(index)), ActionView::SetToDo(index)) == tasks,
{
    assert(apply(apply(tasks, ActionView::SetDone(index)), ActionView::SetToDo(index)) =~= tasks);
}

/// Removing the last task takes back adding one.
pub proof fn lemma_remove_reverses_add(tasks: Seq<TaskView>, text: Seq<char>)
    ensures
        apply(apply(tasks, ActionView::Add(text)), ActionView::Remove(tasks.len())) == tasks,
{
    assert(apply(apply(tasks, ActionView::Add(text)), ActionView::Remove(tasks.len())) =~= tasks);
}

/// Carries out `action` on `tasks`.
pub fn update_task_list(tasks: &mut Vec<Task>, action: Action)
    requires
        can_apply(old(tasks).deep_view(), action@),
    ensures
        final(tasks).deep_view() == apply(old(tasks).deep_view(), action@),
{
    match action {
        Action::Add(description) => {
            tasks.push(Task { description, is_done: false });
        },
        Action::SetDone(index) => {
            if index < tasks.len() {
                tasks[index].is_done = true;
            }
        },
        Action::SetToDo(index) => {
            if index < tasks.len() {
                tasks[index].is_done = false;
            }
        },
        Action::Remove(index) => {
            tasks.remove(index);
        },
        Action::Quit => {},
    }
    assert(tasks.deep_view() =~= apply(old(tasks).deep_view(), action@));
}

/// Carries out `action` on `tasks` where it can be, and refuses it where it
/// cannot, leaving the list as it was.
pub fn try_update_task_list(tasks: &mut Vec<Task>, action: Action) -> (result: Result<
    (),
    CommandError,
>)
    ensures
        result == update_outcome(old(tasks).deep_view(), action@),
        final(tasks).deep_view() == apply(old(tasks).deep_view(), action@),
        result is Err ==> final(tasks)@ == old(tasks)@,
{
    let in_range = match action {
        Action::Remove(index) => index < tasks.len(),
        _ => true,
    };
    if in_range {
        update_task_list(tasks, action);
        Ok(())
    } else {
        Err(CommandError::IndexOutOfRange)
    }
}

} // verus!
