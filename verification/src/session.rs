//! The steps of a session at the command line: what a line that the user
//! typed asks for, and the command line that a phrase translates to.

use crate::command_builder::builder::{command_text, BuildError, CommandBuilder};
use crate::grammar::parser::{parse_tokens, ParseError, ParseErrorView, Parser};
use crate::grammar::tokenizer::{tokens_of, Tokenizer};
use crate::utils::file_utils::{move_to_directory, path_in_directory};
use crate::utils::text::{equals_ignoring_case, same_ignoring_case, trim, trimmed};
use vstd::prelude::*;

verus! {

/// What a line of an interactive session asks for.
#[derive(Debug)]
pub enum LineAction {
    /// To end the session
    Quit,
    /// Nothing: the line is blank
    Skip,
    /// To carry out the phrase
    Run(String),
}

/// What a [`LineAction`] says, with its text as a character sequence.
pub enum LineActionView {
    Quit,
    Skip,
    Run(Seq<char>),
}

impl View for LineAction {
    type V = LineActionView;

    open spec fn view(&self) -> LineActionView {
        match self {
            LineAction::Quit => LineActionView::Quit,
            LineAction::Skip => LineActionView::Skip,
            LineAction::Run(phrase) => LineActionView::Run(phrase@),
        }
    }
}

/// What `line` asks for: without the whitespace around it, `quit` and `exit`
/// in any case end the session, nothing at all is passed over, and anything
/// else is a phrase to carry out.
pub open spec fn line_action(line: Seq<char>) -> LineActionView {
    let phrase = trimmed(line);
    if same_ignoring_case(phrase, "quit"@) || same_ignoring_case(phrase, "exit"@) {
        LineActionView::Quit
    } else if phrase.len() == 0 {
        LineActionView::Skip
    } else {
        LineActionView::Run(phrase)
    }
}

/// Decides what a line that the user typed asks for.
pub fn interpret_line(line: &str) -> (action: LineAction)
    ensures
        action@ == line_action(line@),
{
    let phrase = trim(line);
    if equals_ignoring_case(phrase, "quit") || equals_ignoring_case(phrase, "exit") {
        LineAction::Quit
    } else if phrase.unicode_len() == 0 {
        LineAction::Skip
    } else {
        LineAction::Run(phrase.to_string())
    }
}

/// The reasons for which a phrase has no command line.
#[derive(Debug)]
pub enum TranslationError {
    /// The phrase is not a command
    Parse(ParseError),
    /// The output path names no file that could be put in another directory
    InvalidOutputPath,
    /// The intent has no command
    Build(BuildError),
}

/// What a [`TranslationError`] says, with its texts as character sequences.
pub enum TranslationErrorView {
    Parse(ParseErrorView),
    InvalidOutputPath,
    Build(Seq<char>),
}

impl View for TranslationError {
    type V = TranslationErrorView;

    open spec fn view(&self) -> TranslationErrorView {
        match self {
            TranslationError::Parse(error) => TranslationErrorView::Parse(error@),
            TranslationError::InvalidOutputPath => TranslationErrorView::InvalidOutputPath,
            TranslationError::Build(error) => TranslationErrorView::Build(error.message@),
        }
    }
}

/// The sentence that reports `error`.
pub open spec fn error_message(error: TranslationErrorView) -> Seq<char> {
    match error {
        TranslationErrorView::Parse(error) => crate::grammar::parser::error_message(error),
        TranslationErrorView::InvalidOutputPath => "Invalid output path"@,
        TranslationErrorView::Build(message) => message,
    }
}

impl TranslationError {
    /// The sentence that reports this error.
    pub fn message(&self) -> (text: String)
        ensures
            text@ == error_message(self@),
    {
        match self {
            TranslationError::Parse(error) => error.message(),
            TranslationError::InvalidOutputPath => String::from_str("Invalid output path"),
            TranslationError::Build(error) => error.message.clone(),
        }
    }
}

/// What the result of a translation says.
pub open spec fn translation_view(result: Result<String, TranslationError>) -> Result<
    Seq<char>,
    TranslationErrorView,
> {
    match result {
        Ok(text) => Ok(text@),
        Err(error) => Err(error@),
    }
}

/// The characters of an optional text.
pub open spec fn optional_text(text: Option<&str>) -> Option<Seq<char>> {
    match text {
        Some(t) => Some(t@),
        None => None,
    }
}

/// The command line that `phrase` translates to, or the reason why it has
/// none. The phrase is tokenized and parsed, and the intent is rendered. With
/// an output directory, the command writes to the file of the same name in
/// that directory.
pub open spec fn translation(phrase: Seq<char>, output_directory: Option<Seq<char>>) -> Result<
    Seq<char>,
    TranslationErrorView,
> {
    match parse_tokens(tokens_of(phrase)) {
        Err(error) => Err(TranslationErrorView::Parse(error)),
        Ok(intent) => match output_directory {
            None => Ok(command_text(intent, intent.output_path)),
            Some(directory) => match path_in_directory(intent.output_path, directory) {
                Some(output_path) => Ok(command_text(intent, output_path)),
                None => Err(TranslationErrorView::InvalidOutputPath),
            },
        },
    }
}

/// Translates `phrase` into an ffmpeg command line.
pub fn translate(phrase: &str, output_directory: Option<&str>) -> (command: Result<
    String,
    TranslationError,
>)
    ensures
        translation_view(command) == translation(phrase@, optional_text(output_directory)),
{
    let mut tokenizer = Tokenizer::new(phrase);
    let tokens = tokenizer.tokenize();
    let mut parser = Parser::new(tokens);
    let intent = match parser.parse() {
        Ok(intent) => intent,
        Err(error) => {
            return Err(TranslationError::Parse(error));
        },
    };
    let builder = CommandBuilder::new();
    let built = match output_directory {
        None => builder.build_command(&intent),
        Some(directory) => match move_to_directory(intent.output_path.as_str(), directory) {
            Some(output_path) => builder.build_command_with_output_path(&intent, output_path),
            None => {
                return Err(TranslationError::InvalidOutputPath);
            },
        },
    };
    match built {
        Ok(text) => Ok(text),
        Err(error) => Err(TranslationError::Build(error)),
    }
}

} // verus!
