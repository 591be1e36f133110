//! What the shell does with each command of a chain, and which command comes
//! next.
//!
//! The caller owns the loop: it asks for the action at an index, performs
//! it, and hands the status back to learn the next index.

use vstd::prelude::*;
use crate::chain::{lemma_read_tokens, parse, Chain, CommandChain, Operator};
use crate::tokenizer::{is_space, words};
use crate::text::same_text;

verus! {

/// How a command ended.
#[derive(Clone, Copy, Debug, PartialEq, Eq, Structural)]
pub enum Status {
    /// A built-in did its work, or a program was started and has exited.
    Succeeded,
    /// A built-in failed, or a program could not be started.
    Failed,
}

/// A command that the shell refuses to perform.
#[derive(Clone, Copy, Debug, PartialEq, Eq, Structural)]
pub enum DispatchError {
    /// `cd` was given no directory.
    MissingDirectory,
}

impl DispatchError {
    /// The line that tells the user what went wrong.
    pub fn message(&self) -> (text: String)
        ensures
            text@ == match *self {
                DispatchError::MissingDirectory => "cd: missing directory"@,
            },
    {
        match self {
            DispatchError::MissingDirectory => "cd: missing directory".to_owned(),
        }
    }
}

/// What the shell does for one command.
#[derive(Clone, Copy, Debug, PartialEq, Eq)]
pub enum Action<'c, 'a> {
    /// Leave the shell.
    Exit,
    /// Change the working directory to the one that `target` names.
    ChangeDir { target: &'a str },
    /// Start `program` with `arguments` and wait for it to exit.
    Spawn { program: &'a str, arguments: &'c Vec<&'a str> },
    /// Report `error`; the command counts as failed.
    Report { error: DispatchError },
}

/// What an [`Action`] holds, as character sequences.
pub enum ActionView {
    Exit,
    ChangeDir { target: Seq<char> },
    Spawn { program: Seq<char>, arguments: Seq<Seq<char>> },
    Report { error: DispatchError },
}

impl<'c, 'a> View for Action<'c, 'a> {
    type V = ActionView;

    open spec fn view(&self) -> ActionView {
        match *self {
            Action::Exit => ActionView::Exit,
            Action::ChangeDir { target } => ActionView::ChangeDir { target: target@ },
            Action::Spawn { program, arguments } => ActionView::Spawn {
                program: program@,
                arguments: arguments.deep_view(),
            },
            Action::Report { error } => ActionView::Report { error },
        }
    }
}

/// The name of the built-in that leaves the shell.
pub open spec fn exit_name() -> Seq<char> {
    seq!['e', 'x', 'i', 't']
}

/// The name of the built-in that changes the working directory.
pub open spec fn cd_name() -> Seq<char> {
    seq!['c', 'd']
}

/// What the shell does for the command `name` with `arguments`.
///
/// `exit` leaves the shell and `cd` changes to its first argument, which it
/// must have; every other name is a program to start.
pub open spec fn action_for(name: Seq<char>, arguments: Seq<Seq<char>>) -> ActionView {
    if name == exit_name() {
        ActionView::Exit
    } else if name == cd_name() {
        if arguments.len() == 0 {
            ActionView::Report { error: DispatchError::MissingDirectory }
        } else {
            ActionView::ChangeDir { target: arguments[0] }
        }
    } else {
        ActionView::Spawn { program: name, arguments }
    }
}

/// What the shell does for command `index` of `chain`; nothing where the
/// chain has no such command.
pub open spec fn action_of(chain: Chain, index: int) -> Option<ActionView> {
    if 0 <= index < chain.commands.len() {
        Some(action_for(chain.commands[index], chain.arguments[index]))
    } else {
        None
    }
}

/// Whether a command that ended with `status` and is followed by `operator`
/// lets the next command run.
pub open spec fn lets_pass(operator: Option<Operator>, status: Status) -> bool {
    match operator {
        Some(Operator::And) => status == Status::Succeeded,
        Some(Operator::Or) => status == Status::Failed,
        None => true,
    }
}

/// The command to run after command `index` of `chain` ended with `status`;
/// none where the line is finished.
pub open spec fn index_after(chain: Chain, index: int, status: Status) -> Option<int> {
    if 0 <= index && index + 1 < chain.commands.len() && lets_pass(
        chain.operator_after(index),
        status,
    ) {
        Some(index + 1)
    } else {
        None
    }
}

/// Whether a command that ended with `status` and is followed by `operator`
/// lets the next command run.
pub fn proceeds(operator: Option<Operator>, status: Status) -> (r: bool)
    ensures
        r == lets_pass(operator, status),
{
    match operator {
        Some(Operator::And) => status == Status::Succeeded,
        Some(Operator::Or) => status == Status::Failed,
        None => true,
    }
}

impl<'a> CommandChain<&'a str> {
    /// What to do for command `index`; `None` where the chain has no such
    /// command.
    pub fn action_at<'c>(&'c self, index: usize) -> (action: Option<Action<'c, 'a>>)
        ensures
            action is Some <==> index < self@.commands.len(),
            action matches Some(a) ==> Some(a@) == action_of(self@, index as int),
    {
        let commands = self.commands();
        let arguments = self.arguments();
        if index >= commands.len() {
            return None;
        }
        let name = commands[index];
        let given = &arguments[index];
        proof {
            reveal_strlit("exit");
            reveal_strlit("cd");
            assert("exit"@ =~= exit_name());
            assert("cd"@ =~= cd_name());
        }
        if same_text(name, "exit") {
            Some(Action::Exit)
        } else if same_text(name, "cd") {
            if given.len() == 0 {
                Some(Action::Report { error: DispatchError::MissingDirectory })
            } else {
                Some(Action::ChangeDir { target: given[0] })
            }
        } else {
            Some(Action::Spawn { program: name, arguments: given })
        }
    }

    /// The command to run after command `index` ended with `status`; `None`
    /// where the line is finished.
    pub fn next_index(&self, index: usize, status: Status) -> (next: Option<usize>)
        ensures
            index_after(self@, index as int, status) == match next {
                Some(i) => Some(i as int),
                None => None,
            },
    {
        let operators = self.operators();
        let count = self.len();
        if index >= count || index + 1 >= count {
            return None;
        }
        let operator = if index < operators.len() {
            Some(operators[index])
        } else {
            None
        };
        if proceeds(operator, status) {
            Some(index + 1)
        } else {
            None
        }
    }
}

/// A line of nothing but whitespace holds no token and no command, so the
/// shell has nothing to do for it.
pub proof fn lemma_blank_line_does_nothing(line: Seq<char>)
    requires
        forall|k: int| 0 <= k < line.len() ==> is_space(#[trigger] line[k]),
    ensures
        words(line).len() == 0,
        parse(words(line)) == Chain::empty(),
        action_of(parse(words(line)), 0) is None,
    decreases line.len(),
{
    if line.len() > 0 {
        lemma_blank_line_does_nothing(line.drop_first());
    }
}

/// A line whose first token is `exit` makes the shell leave at once,
/// whatever follows on the line.
pub proof fn lemma_exit_comes_first(tokens: Seq<Seq<char>>)
    requires
        tokens.len() > 0,
        tokens[0] == exit_name(),
    ensures
        action_of(parse(tokens), 0) == Some(ActionView::Exit),
{
    lemma_read_tokens(tokens);
}

/// Behind `&&` the next command runs just when this one succeeded, and
/// behind `||` just when it failed.
pub proof fn lemma_short_circuit(chain: Chain, index: int, status: Status)
    requires
        0 <= index < chain.operators.len(),
        index + 1 < chain.commands.len(),
    ensures
        chain.operators[index] == Operator::And ==> (index_after(chain, index, status) == if status
            == Status::Succeeded {
            Some(index + 1)
        } else {
            None
        }),
        chain.operators[index] == Operator::Or ==> (index_after(chain, index, status) == if status
            == Status::Failed {
            Some(index + 1)
        } else {
            None
        }),
{
}

} // verus!
