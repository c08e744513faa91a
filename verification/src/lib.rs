//! A task list driven by one-line commands: the command grammar, what each
//! command does to the list, and the list as text.
//!
//! [`parse_action`] and [`try_parse_action`] read a line, [`update_task_list`]
//! and [`try_update_task_list`] carry the command out, and
//! [`get_string_representation_from_task_list`] renders the list.

pub mod action;
pub mod decimal;
pub mod display;
pub mod task;
pub mod text;

pub use action::{parse_action, try_parse_action, Action, CommandError};
pub use display::get_string_representation_from_task_list;
pub use task::{try_update_task_list, update_task_list, Task};
