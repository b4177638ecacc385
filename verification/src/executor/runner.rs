use crate::utils::text::{is_whitespace, whitespace};
use vstd::prelude::*;

verus! {

/// Runner for executing ffmpeg commands.
///
/// The runner starts no program itself. It says which program is to be
/// started next, and is told how that went: see [`Runner::start`] and
/// [`Runner::proceed`].
#[derive(Debug)]
pub struct Runner;

/// Error types that can occur during command execution.
#[derive(Debug)]
pub enum ExecutionError {
    /// The command failed to execute
    CommandFailed(String),
    /// The command is invalid
    InvalidCommand(String),
}

/// What an [`ExecutionError`] says, with its text as a character sequence.
pub enum ExecutionErrorView {
    CommandFailed(Seq<char>),
    InvalidCommand(Seq<char>),
}

impl View for ExecutionError {
    type V = ExecutionErrorView;

    open spec fn view(&self) -> ExecutionErrorView {
        match self {
            ExecutionError::CommandFailed(text) => ExecutionErrorView::CommandFailed(text@),
            ExecutionError::InvalidCommand(text) => ExecutionErrorView::InvalidCommand(text@),
        }
    }
}

/// The sentence that reports `error`.
pub open spec fn error_message(error: ExecutionErrorView) -> Seq<char> {
    match error {
        ExecutionErrorView::CommandFailed(reason) => "Command failed: "@ + reason,
        ExecutionErrorView::InvalidCommand(command) => "Invalid command: "@ + command,
    }
}

impl ExecutionError {
    /// The sentence that reports this error.
    pub fn message(&self) -> (text: String)
        ensures
            text@ == error_message(self@),
    {
        match self {
            ExecutionError::CommandFailed(reason) => {
                let mut text = String::from_str("Command failed: ");
                text.append(reason.as_str());
                text
            },
            ExecutionError::InvalidCommand(command) => {
                let mut text = String::from_str("Invalid command: ");
                text.append(command.as_str());
                text
            },
        }
    }
}

/// A program to start, and the arguments to start it with.
#[derive(Debug)]
pub struct Invocation {
    /// The name of the program
    pub program: String,
    /// The arguments, in order
    pub arguments: Vec<String>,
}

/// What an [`Invocation`] says, with its texts as character sequences.
pub struct InvocationView {
    pub program: Seq<char>,
    pub arguments: Seq<Seq<char>>,
}

/// What a list of texts says.
pub open spec fn text_views(texts: Seq<String>) -> Seq<Seq<char>> {
    Seq::new(texts.len(), |i: int| texts[i]@)
}

impl View for Invocation {
    type V = InvocationView;

    open spec fn view(&self) -> InvocationView {
        InvocationView { program: self.program@, arguments: text_views(self.arguments@) }
    }
}

/// How an attempt to run a program ended.
#[derive(Debug)]
pub enum Outcome {
    /// The program could not be started, for the reason given
    NotStarted(String),
    /// The program ran and ended, with success or without; `status`
    /// describes how it ended
    Exited { success: bool, status: String },
}

/// What an [`Outcome`] says, with its texts as character sequences.
pub enum OutcomeView {
    NotStarted(Seq<char>),
    Exited { success: bool, status: Seq<char> },
}

impl View for Outcome {
    type V = OutcomeView;

    open spec fn view(&self) -> OutcomeView {
        match self {
            Outcome::NotStarted(reason) => OutcomeView::NotStarted(reason@),
            Outcome::Exited { success, status } => OutcomeView::Exited {
                success: *success,
                status: status@,
            },
        }
    }
}

/// The two programs that an execution runs, one after the other.
#[derive(Debug, Clone, Copy, PartialEq, Eq, Structural)]
pub enum Stage {
    /// `ffmpeg -version`, to learn whether ffmpeg can be started at all
    Probe,
    /// The command itself
    Command,
}

/// What is to be done next for an execution.
#[derive(Debug)]
pub enum Action {
    /// Start this program, and report how that ended
    Run(Stage, Invocation),
    /// Nothing more: the execution has ended with this result
    Finish(Result<(), ExecutionError>),
}

/// What an [`Action`] says, with its texts as character sequences.
pub enum ActionView {
    Run(Stage, InvocationView),
    Finish(Result<(), ExecutionErrorView>),
}

impl View for Action {
    type V = ActionView;

    open spec fn view(&self) -> ActionView {
        match self {
            Action::Run(stage, invocation) => ActionView::Run(*stage, invocation@),
            Action::Finish(result) => ActionView::Finish(
                match result {
                    Ok(done) => Ok(*done),
                    Err(error) => Err(error@),
                },
            ),
        }
    }
}

/// Where the run of characters other than whitespace that begins at `from`
/// ends.
pub open spec fn part_end(text: Seq<char>, from: int) -> int
    decreases text.len() - from,
{
    if 0 <= from < text.len() && !whitespace(text[from]) {
        part_end(text, from + 1)
    } else {
        from
    }
}

/// The parts of `text` from `from` on: its longest runs of characters other
/// than whitespace, in order.
pub open spec fn parts_from(text: Seq<char>, from: int) -> Seq<Seq<char>>
    decreases text.len() - from,
{
    if from < 0 || from >= text.len() {
        Seq::empty()
    } else if whitespace(text[from]) {
        parts_from(text, from + 1)
    } else {
        proof {
            lemma_part_end(text, from + 1);
        }
        seq![text.subrange(from, part_end(text, from))] + parts_from(text, part_end(text, from))
    }
}

/// The parts of `text` that whitespace separates.
pub open spec fn parts_of(text: Seq<char>) -> Seq<Seq<char>> {
    parts_from(text, 0)
}

/// A part ends within the text.
pub proof fn lemma_part_end(text: Seq<char>, from: int)
    requires
        0 <= from <= text.len(),
    ensures
        from <= part_end(text, from) <= text.len(),
    decreases text.len() - from,
{
    if from < text.len() && !whitespace(text[from]) {
        lemma_part_end(text, from + 1);
    }
}

/// The invocation that starts `ffmpeg` only to print its version.
pub open spec fn probe() -> InvocationView {
    InvocationView { program: "ffmpeg"@, arguments: seq!["-version"@] }
}

/// What is to be done when the program of `stage` has ended with `outcome`,
/// in the execution of `command`.
///
/// If the probe could not be started, ffmpeg is not available and the
/// execution fails. Otherwise, however the probe ended, the command is split
/// into its parts: the first is the program, the others are its arguments,
/// and a command without parts is invalid. If the command could not be
/// started or ended without success, the execution fails; if it ended with
/// success, so does the execution.
pub open spec fn next_action(stage: Stage, command: Seq<char>, outcome: OutcomeView) -> ActionView {
    match stage {
        Stage::Probe => match outcome {
            OutcomeView::NotStarted(_) => ActionView::Finish(
                Err(ExecutionErrorView::CommandFailed("ffmpeg is not available in PATH"@)),
            ),
            OutcomeView::Exited { .. } => {
                let parts = parts_of(command);
                if parts.len() == 0 {
                    ActionView::Finish(
                        Err(ExecutionErrorView::InvalidCommand("Command is empty"@)),
                    )
                } else {
                    ActionView::Run(
                        Stage::Command,
                        InvocationView { program: parts[0], arguments: parts.skip(1) },
                    )
                }
            },
        },
        Stage::Command => match outcome {
            OutcomeView::NotStarted(reason) => ActionView::Finish(
                Err(ExecutionErrorView::CommandFailed("Failed to execute command: "@ + reason)),
            ),
            OutcomeView::Exited { success, status } => if success {
                ActionView::Finish(Ok(()))
            } else {
                ActionView::Finish(
                    Err(
                        ExecutionErrorView::CommandFailed(
                            "Command exited with status: "@ + status,
                        ),
                    ),
                )
            },
        },
    }
}

impl Runner {
    /// Creates a new command runner.
    pub fn new() -> Self {
        Self
    }

    /// The first thing to do for any execution: to start the probe.
    pub fn start(&self) -> (action: Action)
        ensures
            action@ == ActionView::Run(Stage::Probe, probe()),
    {
        let mut arguments: Vec<String> = Vec::new();
        arguments.push(String::from_str("-version"));
        let invocation = Invocation { program: String::from_str("ffmpeg"), arguments };
        assert(invocation@.arguments =~= seq!["-version"@]);
        Action::Run(Stage::Probe, invocation)
    }

    /// What to do next in the execution of `cmd`, when the program of
    /// `stage` has ended with `outcome`.
    pub fn proceed(&self, stage: Stage, cmd: &str, outcome: Outcome) -> (action: Action)
        ensures
            action@ == next_action(stage, cmd@, outcome@),
    {
        match stage {
            Stage::Probe => match outcome {
                Outcome::NotStarted(_) => Action::Finish(
                    Err(
                        ExecutionError::CommandFailed(
                            String::from_str("ffmpeg is not available in PATH"),
                        ),
                    ),
                ),
                Outcome::Exited { .. } => {
                    let mut parts = split_command(cmd);
                    if parts.len() == 0 {
                        Action::Finish(
                            Err(ExecutionError::InvalidCommand(String::from_str("Command is empty"))),
                        )
                    } else {
                        let ghost all = text_views(parts@);
                        let program = parts.remove(0);
                        assert(text_views(parts@) =~= all.skip(1));
                        Action::Run(Stage::Command, Invocation { program, arguments: parts })
                    }
                },
            },
            Stage::Command => match outcome {
                Outcome::NotStarted(reason) => {
                    let mut text = String::from_str("Failed to execute command: ");
                    text.append(reason.as_str());
                    Action::Finish(Err(ExecutionError::CommandFailed(text)))
                },
                Outcome::Exited { success, status } => {
                    if success {
                        Action::Finish(Ok(()))
                    } else {
                        let mut text = String::from_str("Command exited with status: ");
                        text.append(status.as_str());
                        Action::Finish(Err(ExecutionError::CommandFailed(text)))
                    }
                },
            },
        }
    }
}

/// Splits `cmd` into the parts that whitespace separates.
pub fn split_command(cmd: &str) -> (parts: Vec<String>)
    ensures
        text_views(parts@) == parts_of(cmd@),
{
    let length = cmd.unicode_len();
    let mut parts: Vec<String> = Vec::new();
    let mut position: usize = 0;
    assert(text_views(parts@) =~= Seq::<Seq<char>>::empty());
    while position < length
        invariant
            length == cmd@.len(),
            position <= length,
            text_views(parts@) + parts_from(cmd@, position as int) == parts_of(cmd@),
        decreases length - position,
    {
        if is_whitespace(cmd.get_char(position)) {
            position += 1;
        } else {
            let start = position;
            while position < length && !is_whitespace(cmd.get_char(position))
                invariant
                    length == cmd@.len(),
                    start <= position <= length,
                    part_end(cmd@, position as int) == part_end(cmd@, start as int),
                decreases length - position,
            {
                position += 1;
            }
            let ghost before = text_views(parts@);
            let part = cmd.substring_char(start, position).to_string();
            parts.push(part);
            assert(text_views(parts@) =~= before + seq![part@]);
            assert(text_views(parts@) + parts_from(cmd@, position as int) =~= before + (seq![
                part@,
            ] + parts_from(cmd@, position as int)));
        }
    }
    assert(text_views(parts@) + Seq::<Seq<char>>::empty() =~= text_views(parts@));
    parts
}

} // verus!
