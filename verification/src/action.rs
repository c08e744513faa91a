//! The command grammar: a line of text is read as one of five actions.

use crate::decimal::{
    decimal_digits, is_digit, lemma_decimal_digits_are_digits, lemma_numeral_of_digits,
    numeral_value, parse_numeral,
};
use crate::text::{
    chars_of, end_of_whitespace, end_of_word, is_whitespace, lemma_skip_whitespace_finds_end,
    lemma_skip_word_finds_end, skip_whitespace, skip_word, word_at,
};
use vstd::prelude::*;
use vstd::string::*;

verus! {

/// What a command asks for. Positions are indices into the task list,
/// counted from zero.
#[derive(Debug, PartialEq)]
pub enum Action {
    /// Put a new task with this description at the end of the list.
    Add(String),
    /// End the session; the list stays as it is.
    Quit,
    /// Take the task at this index out of the list.
    Remove(usize),
    /// Mark the task at this index as still to do.
    SetToDo(usize),
    /// Mark the task at this index as done.
    SetDone(usize),
}

/// An action as a mathematical value.
pub enum ActionView {
    Add(Seq<char>),
    Quit,
    Remove(nat),
    SetToDo(nat),
    SetDone(nat),
}

impl View for Action {
    type V = ActionView;

    open spec fn view(&self) -> ActionView {
        match *self {
            Action::Add(text) => ActionView::Add(text@),
            Action::Quit => ActionView::Quit,
            Action::Remove(index) => ActionView::Remove(index as nat),
            Action::SetToDo(index) => ActionView::SetToDo(index as nat),
            Action::SetDone(index) => ActionView::SetDone(index as nat),
        }
    }
}

/// Why a command is refused.
#[derive(Clone, Copy, Debug, PartialEq, Eq)]
pub enum CommandError {
    /// The command needs an argument, and the line holds none, or one that is
    /// no numeral where a position is asked for, or a numeral too large for
    /// a `usize`.
    MalformedArgument,
    /// The position names no task: it is zero, where positions are counted
    /// from one, or it asks to remove a task beyond the end of the list.
    IndexOutOfRange,
}

/// What reading a line gave, as a mathematical value.
pub open spec fn outcome_view(outcome: Result<Action, CommandError>) -> Result<
    ActionView,
    CommandError,
> {
    match outcome {
        Ok(action) => Ok(action@),
        Err(error) => Err(error),
    }
}

/// The first word of `line`, which selects the command; empty where the line
/// holds no word.
pub open spec fn command_word(line: Seq<char>) -> Seq<char> {
    word_at(line, 0)
}

/// The second word of `line`, the command's argument; empty where the line
/// holds no second word.
pub open spec fn argument_word(line: Seq<char>) -> Seq<char> {
    word_at(line, skip_word(line, skip_whitespace(line, 0)))
}

/// The index that the argument `word` selects. A user counts tasks from one,
/// so the numeral of `n` selects index `n - 1`.
pub open spec fn index_of_position(word: Seq<char>) -> Result<usize, CommandError> {
    match numeral_value(word) {
        None => Err(CommandError::MalformedArgument),
        Some(n) => if n == 0 {
            Err(CommandError::IndexOutOfRange)
        } else {
            Ok((n - 1) as usize)
        },
    }
}

/// The action that `line` asks for, or the reason why it is refused.
///
/// `+ text` adds a task, `- n` removes task `n`, `o n` marks task `n` as to
/// do, `x n` marks it as done. Every other line, the empty one and `q` among
/// them, quits. Words after the second are ignored.
pub open spec fn action_of_line(line: Seq<char>) -> Result<ActionView, CommandError> {
    let command = command_word(line);
    let argument = argument_word(line);
    if command == seq!['+'] {
        if argument.len() == 0 {
            Err(CommandError::MalformedArgument)
        } else {
            Ok(ActionView::Add(argument))
        }
    } else if command == seq!['-'] {
        match index_of_position(argument) {
            Ok(index) => Ok(ActionView::Remove(index as nat)),
            Err(error) => Err(error),
        }
    } else if command == seq!['o'] {
        match index_of_position(argument) {
            Ok(index) => Ok(ActionView::SetToDo(index as nat)),
            Err(error) => Err(error),
        }
    } else if command == seq!['x'] {
        match index_of_position(argument) {
            Ok(index) => Ok(ActionView::SetDone(index as nat)),
            Err(error) => Err(error),
        }
    } else {
        Ok(ActionView::Quit)
    }
}

/// Whether `selector` is one of the commands that take a position.
pub open spec fn takes_position(selector: char) -> bool {
    selector == '-' || selector == 'o' || selector == 'x'
}

/// The action that the command `selector` asks for on the task at `index`.
pub open spec fn action_at(selector: char, index: nat) -> ActionView
    recommends
        takes_position(selector),
{
    if selector == '-' {
        ActionView::Remove(index)
    } else if selector == 'o' {
        ActionView::SetToDo(index)
    } else {
        ActionView::SetDone(index)
    }
}

/// A line whose command takes a position, and whose argument is a numeral
/// for `n`, asks for that command's action on the task at index `n - 1`,
/// for every `n` from one up to the largest `usize`, however the numeral is
/// spelled and whatever whitespace surrounds it. With a numeral for zero the
/// line is refused as out of range: zero selects no index.
pub proof fn lemma_position_selects_index_before(line: Seq<char>, selector: char, n: nat)
    requires
        takes_position(selector),
        command_word(line) == seq![selector],
        n <= usize::MAX,
        numeral_value(argument_word(line)) == Some(n as usize),
    ensures
        n >= 1 ==> action_of_line(line) == Ok::<ActionView, CommandError>(
            action_at(selector, (n - 1) as nat),
        ),
        n == 0 ==> action_of_line(line) == Err::<ActionView, CommandError>(
            CommandError::IndexOutOfRange,
        ),
{
    lemma_one_char_word(seq![selector], '+');
    lemma_one_char_word(seq![selector], '-');
    lemma_one_char_word(seq![selector], 'o');
    lemma_one_char_word(seq![selector], 'x');
}

/// The line made of a command that takes a position, a space and the digits
/// of `n` asks for that command's action on the task at index `n - 1`, for
/// every `n` from one up to the largest `usize`, and is refused as out of
/// range for zero.
pub proof fn lemma_digits_select_index_before(selector: char, n: nat)
    requires
        takes_position(selector),
        n <= usize::MAX,
    ensures
        n >= 1 ==> action_of_line(seq![selector, ' '] + decimal_digits(n)) == Ok::<
            ActionView,
            CommandError,
        >(action_at(selector, (n - 1) as nat)),
        n == 0 ==> action_of_line(seq![selector, ' '] + decimal_digits(n)) == Err::<
            ActionView,
            CommandError,
        >(CommandError::IndexOutOfRange),
{
    let digits = decimal_digits(n);
    let line = seq![selector, ' '] + digits;
    lemma_decimal_digits_are_digits(n);
    assert forall|i: int| 2 <= i < line.len() implies !is_whitespace(#[trigger] line[i]) by {
        assert(is_digit(digits[i - 2]));
    }
    lemma_skip_whitespace_finds_end(line, 0, 0);
    lemma_skip_word_finds_end(line, 0, 1);
    lemma_skip_whitespace_finds_end(line, 1, 2);
    lemma_skip_word_finds_end(line, 2, line.len() as int);
    assert(command_word(line) =~= seq![selector]);
    assert(argument_word(line) =~= digits);
    lemma_numeral_of_digits(n);
    lemma_position_selects_index_before(line, selector, n);
}

/// A word is the single character `c` exactly where it has one character,
/// and that is `c`.
proof fn lemma_one_char_word(word: Seq<char>, c: char)
    ensures
        word == seq![c] <==> word.len() == 1 && word[0] == c,
{
    if word.len() == 1 && word[0] == c {
        assert(word =~= seq![c]);
    }
}

/// Reads the position that `chars` holds from `from` up to `to`, and returns
/// the index it selects.
pub fn parse_position(chars: &[char], from: usize, to: usize) -> (result: Result<
    usize,
    CommandError,
>)
    requires
        from <= to <= chars@.len(),
    ensures
        result == index_of_position(chars@.subrange(from as int, to as int)),
{
    match parse_numeral(chars, from, to) {
        None => Err(CommandError::MalformedArgument),
        Some(n) => if n == 0 {
            Err(CommandError::IndexOutOfRange)
        } else {
            Ok(n - 1)
        },
    }
}

/// Reads `input` as a command.
pub fn try_parse_action(input: &str) -> (result: Result<Action, CommandError>)
    ensures
        outcome_view(result) == action_of_line(input@),
{
    let chars = chars_of(input);
    let command_start = end_of_whitespace(&chars, 0);
    let command_end = end_of_word(&chars, command_start);
    let argument_start = end_of_whitespace(&chars, command_end);
    let argument_end = end_of_word(&chars, argument_start);
    proof {
        let command = command_word(input@);
        assert(command.len() == command_end - command_start);
        assert(argument_word(input@).len() == argument_end - argument_start);
        lemma_one_char_word(command, '+');
        lemma_one_char_word(command, '-');
        lemma_one_char_word(command, 'o');
        lemma_one_char_word(command, 'x');
    }
    if command_end - command_start != 1 {
        return Ok(Action::Quit);
    }
    let selector: char = chars[command_start];
    if selector == '+' {
        if argument_start == argument_end {
            Err(CommandError::MalformedArgument)
        } else {
            let text = input.substring_char(argument_start, argument_end);
            Ok(Action::Add(text.to_owned()))
        }
    } else if selector == '-' {
        match parse_position(&chars, argument_start, argument_end) {
            Ok(index) => Ok(Action::Remove(index)),
            Err(error) => Err(error),
        }
    } else if selector == 'o' {
        match parse_position(&chars, argument_start, argument_end) {
            Ok(index) => Ok(Action::SetToDo(index)),
            Err(error) => Err(error),
        }
    } else if selector == 'x' {
        match parse_position(&chars, argument_start, argument_end) {
            Ok(index) => Ok(Action::SetDone(index)),
            Err(error) => Err(error),
        }
    } else {
        Ok(Action::Quit)
    }
}

/// Reads `input` as a command that is known to be well formed.
pub fn parse_action(input: &str) -> (action: Action)
    requires
        action_of_line(input@) is Ok,
    ensures
        action_of_line(input@) == Ok::<ActionView, CommandError>(action@),
{
    try_parse_action(input).unwrap()
}

} // verus!
