use crate::grammar::tokenizer::{token_views, Token, TokenView};
use crate::intent::types::{Intent, IntentView, OperationType, Parameters};
use crate::utils::file_utils::{
    is_supported_format, path_with_replaced_extension, replace_extension, supported_format,
};
use crate::utils::text::{contains_dot, same_text};
use vstd::prelude::*;

verus! {

/// Parser of the sentence `<operation> <input> to <output or format>`.
#[derive(Debug)]
pub struct Parser {
    tokens: Vec<Token>,
    position: usize,
}

/// The ways in which a list of tokens can fail to be a command.
#[derive(Debug)]
pub enum ParseError {
    /// The token at the cursor is of the wrong kind or holds the wrong word
    UnexpectedToken(String),
    /// The tokens ended where one more was required
    MissingToken(String),
    /// A path names no file whose extension could be replaced
    InvalidPath(String),
    /// The extension of a path is not one of the supported ones
    UnsupportedFormat(String),
}

/// What a [`ParseError`] says, with its text as a character sequence.
pub enum ParseErrorView {
    UnexpectedToken(Seq<char>),
    MissingToken(Seq<char>),
    InvalidPath(Seq<char>),
    UnsupportedFormat(Seq<char>),
}

impl View for ParseError {
    type V = ParseErrorView;

    open spec fn view(&self) -> ParseErrorView {
        match self {
            ParseError::UnexpectedToken(text) => ParseErrorView::UnexpectedToken(text@),
            ParseError::MissingToken(text) => ParseErrorView::MissingToken(text@),
            ParseError::InvalidPath(text) => ParseErrorView::InvalidPath(text@),
            ParseError::UnsupportedFormat(text) => ParseErrorView::UnsupportedFormat(text@),
        }
    }
}

/// The sentence that reports `error`.
pub open spec fn error_message(error: ParseErrorView) -> Seq<char> {
    match error {
        ParseErrorView::UnexpectedToken(token) => "Unexpected token: "@ + token,
        ParseErrorView::MissingToken(expected) => "Missing expected token: "@ + expected,
        ParseErrorView::InvalidPath(path) => "Invalid path: "@ + path,
        ParseErrorView::UnsupportedFormat(format) => "Unsupported format: "@ + format,
    }
}

impl ParseError {
    /// The sentence that reports this error.
    pub fn message(&self) -> (text: String)
        ensures
            text@ == error_message(self@),
    {
        match self {
            ParseError::UnexpectedToken(token) => labelled("Unexpected token: ", token.as_str()),
            ParseError::MissingToken(expected) => labelled(
                "Missing expected token: ",
                expected.as_str(),
            ),
            ParseError::InvalidPath(path) => labelled("Invalid path: ", path.as_str()),
            ParseError::UnsupportedFormat(format) => labelled(
                "Unsupported format: ",
                format.as_str(),
            ),
        }
    }
}

/// `label` followed by `text`.
fn labelled(label: &str, text: &str) -> (joined: String)
    ensures
        joined@ == label@ + text@,
{
    let mut joined = label.to_string();
    joined.append(text);
    joined
}

/// The operation that a keyword names, if it names one.
pub open spec fn keyword_operation(word: Seq<char>) -> Option<OperationType> {
    if word == "convert"@ {
        Some(OperationType::Convert)
    } else if word == "resize"@ {
        Some(OperationType::Resize)
    } else if word == "transcode"@ {
        Some(OperationType::Transcode)
    } else if word == "extract"@ || word == "extractaudio"@ {
        Some(OperationType::ExtractAudio)
    } else {
        None
    }
}

/// What one step of the parser yields, and where the cursor stands after it.
pub struct Step<T> {
    pub result: Result<T, ParseErrorView>,
    pub position: int,
}

/// Reading the operation at `at`: a word that is one of the keywords. The
/// cursor moves past any word, known or not.
pub open spec fn operation_step(tokens: Seq<TokenView>, at: int) -> Step<OperationType> {
    if at >= tokens.len() {
        Step { result: Err(ParseErrorView::MissingToken("operation"@)), position: at }
    } else {
        match tokens[at] {
            TokenView::Word(word) => Step {
                result: match keyword_operation(word) {
                    Some(operation) => Ok(operation),
                    None => Err(ParseErrorView::UnexpectedToken("Unknown operation: "@ + word)),
                },
                position: at + 1,
            },
            _ => Step {
                result: Err(ParseErrorView::UnexpectedToken("Expected operation word"@)),
                position: at,
            },
        }
    }
}

/// Reading a path at `at`: a path token, or a word that holds a dot.
pub open spec fn path_step(tokens: Seq<TokenView>, at: int) -> Step<Seq<char>> {
    if at >= tokens.len() {
        Step { result: Err(ParseErrorView::MissingToken("path"@)), position: at }
    } else {
        match tokens[at] {
            TokenView::Path(path) => Step { result: Ok(path), position: at + 1 },
            TokenView::Word(word) => if word.contains('.') {
                Step { result: Ok(word), position: at + 1 }
            } else {
                Step {
                    result: Err(ParseErrorView::UnexpectedToken("Expected path, got: "@ + word)),
                    position: at,
                }
            },
            _ => Step {
                result: Err(ParseErrorView::UnexpectedToken("Expected path"@)),
                position: at,
            },
        }
    }
}

/// Reading the word `expected` at `at`.
pub open spec fn word_step(tokens: Seq<TokenView>, at: int, expected: Seq<char>) -> Step<()> {
    if at >= tokens.len() {
        Step { result: Err(ParseErrorView::MissingToken(expected)), position: at }
    } else {
        match tokens[at] {
            TokenView::Word(word) => if word == expected {
                Step { result: Ok(()), position: at + 1 }
            } else {
                Step {
                    result: Err(
                        ParseErrorView::UnexpectedToken(
                            "Expected '"@ + expected + "', got: "@ + word,
                        ),
                    ),
                    position: at,
                }
            },
            _ => Step {
                result: Err(
                    ParseErrorView::UnexpectedToken(
                        "Expected '"@ + expected + "', got different token type"@,
                    ),
                ),
                position: at,
            },
        }
    }
}

/// Reading the output at `at`: a path token, a word that holds a dot, or a
/// format token, which stands for the input path with its extension
/// replaced.
pub open spec fn output_step(tokens: Seq<TokenView>, at: int, input_path: Seq<char>) -> Step<
    Seq<char>,
> {
    if at >= tokens.len() {
        Step { result: Err(ParseErrorView::MissingToken("output path or format"@)), position: at }
    } else {
        match tokens[at] {
            TokenView::Path(path) => Step { result: Ok(path), position: at + 1 },
            TokenView::Format(format) => Step {
                result: match path_with_replaced_extension(input_path, format) {
                    Some(path) => Ok(path),
                    None => Err(ParseErrorView::InvalidPath(input_path)),
                },
                position: at + 1,
            },
            TokenView::Word(word) => if word.contains('.') {
                Step { result: Ok(word), position: at + 1 }
            } else {
                Step {
                    result: Err(
                        ParseErrorView::UnexpectedToken("Expected path or format, got: "@ + word),
                    ),
                    position: at,
                }
            },
            _ => Step {
                result: Err(ParseErrorView::UnexpectedToken("Expected output path or format"@)),
                position: at,
            },
        }
    }
}

/// Reading a whole command at `at`: an operation, an input path of a
/// supported format, the word `to`, and an output whose format is supported
/// if it holds a dot. The first step that fails ends the reading.
pub open spec fn command_step(tokens: Seq<TokenView>, at: int) -> Step<IntentView> {
    let operation = operation_step(tokens, at);
    match operation.result {
        Err(error) => Step { result: Err(error), position: operation.position },
        Ok(kind) => {
            let input = path_step(tokens, operation.position);
            match input.result {
                Err(error) => Step { result: Err(error), position: input.position },
                Ok(input_path) => if !supported_format(input_path) {
                    Step {
                        result: Err(ParseErrorView::UnsupportedFormat(input_path)),
                        position: input.position,
                    }
                } else {
                    let to = word_step(tokens, input.position, "to"@);
                    match to.result {
                        Err(error) => Step { result: Err(error), position: to.position },
                        Ok(_) => {
                            let output = output_step(tokens, to.position, input_path);
                            match output.result {
                                Err(error) => Step {
                                    result: Err(error),
                                    position: output.position,
                                },
                                Ok(output_path) => Step {
                                    result: if output_path.contains('.') && !supported_format(
                                        output_path,
                                    ) {
                                        Err(ParseErrorView::UnsupportedFormat(output_path))
                                    } else {
                                        Ok(
                                            IntentView {
                                                operation: kind,
                                                input_path,
                                                output_path,
                                                parameters: Map::empty(),
                                            },
                                        )
                                    },
                                    position: output.position,
                                },
                            }
                        },
                    }
                },
            }
        },
    }
}

/// The intent that a list of tokens states, or the reason why it states none.
pub open spec fn parse_tokens(tokens: Seq<TokenView>) -> Result<IntentView, ParseErrorView> {
    command_step(tokens, 0).result
}

/// What a parsing result says.
pub open spec fn result_view<T: View>(result: Result<T, ParseError>) -> Result<
    T::V,
    ParseErrorView,
> {
    match result {
        Ok(value) => Ok(value@),
        Err(error) => Err(error@),
    }
}

/// What the result of a step that yields a plain value says.
pub open spec fn plain_result_view<T>(result: Result<T, ParseError>) -> Result<T, ParseErrorView> {
    match result {
        Ok(value) => Ok(value),
        Err(error) => Err(error@),
    }
}

impl Parser {
    /// The tokens that this parser reads.
    pub closed spec fn tokens(&self) -> Seq<TokenView> {
        token_views(self.tokens@)
    }

    /// The index of the token that this parser reads next.
    pub closed spec fn position(&self) -> int {
        self.position as int
    }

    /// Creates a parser that stands before the first of `tokens`.
    pub fn new(tokens: Vec<Token>) -> (parser: Self)
        ensures
            parser.tokens() == token_views(tokens@),
            parser.position() == 0,
    {
        Self { tokens, position: 0 }
    }

    /// Reads a command from the cursor on and moves the cursor past what was
    /// read.
    pub fn parse(&mut self) -> (result: Result<Intent, ParseError>)
        ensures
            final(self).tokens() == old(self).tokens(),
            result_view(result) == command_step(old(self).tokens(), old(self).position()).result,
            final(self).position() == command_step(
                old(self).tokens(),
                old(self).position(),
            ).position,
    {
        let operation = self.parse_operation()?;
        let input_path = self.parse_path()?;
        if !is_supported_format(input_path.as_str()) {
            return Err(ParseError::UnsupportedFormat(input_path));
        }
        self.expect_word("to")?;
        let output_path = self.parse_output_path_or_format(input_path.as_str())?;
        if contains_dot(output_path.as_str()) && !is_supported_format(output_path.as_str()) {
            return Err(ParseError::UnsupportedFormat(output_path));
        }
        Ok(Intent { operation, input_path, output_path, parameters: Parameters::new() })
    }

    /// Reads the operation at the cursor: a word that is one of the keywords.
    /// The cursor moves past any word, known or not.
    pub fn parse_operation(&mut self) -> (result: Result<OperationType, ParseError>)
        ensures
            final(self).tokens() == old(self).tokens(),
            plain_result_view(result) == operation_step(
                old(self).tokens(),
                old(self).position(),
            ).result,
            final(self).position() == operation_step(
                old(self).tokens(),
                old(self).position(),
            ).position,
    {
        if self.position >= self.tokens.len() {
            return Err(ParseError::MissingToken("operation".to_string()));
        }
        match &self.tokens[self.position] {
            Token::Word(word) => {
                self.position += 1;
                let name = word.as_str();
                if same_text(name, "convert") {
                    Ok(OperationType::Convert)
                } else if same_text(name, "resize") {
                    Ok(OperationType::Resize)
                } else if same_text(name, "transcode") {
                    Ok(OperationType::Transcode)
                } else if same_text(name, "extract") || same_text(name, "extractaudio") {
                    Ok(OperationType::ExtractAudio)
                } else {
                    Err(ParseError::UnexpectedToken(labelled("Unknown operation: ", name)))
                }
            },
            _ => Err(ParseError::UnexpectedToken("Expected operation word".to_string())),
        }
    }

    /// Reads a path at the cursor: a path token, or a word that holds a dot.
    pub fn parse_path(&mut self) -> (result: Result<String, ParseError>)
        ensures
            final(self).tokens() == old(self).tokens(),
            result_view(result) == path_step(
                old(self).tokens(),
                old(self).position(),
            ).result,
            final(self).position() == path_step(
                old(self).tokens(),
                old(self).position(),
            ).position,
    {
        if self.position >= self.tokens.len() {
            return Err(ParseError::MissingToken("path".to_string()));
        }
        match &self.tokens[self.position] {
            Token::Path(path) => {
                self.position += 1;
                Ok(path.clone())
            },
            Token::Word(word) => {
                if contains_dot(word.as_str()) {
                    self.position += 1;
                    Ok(word.clone())
                } else {
                    Err(ParseError::UnexpectedToken(labelled("Expected path, got: ", word.as_str())))
                }
            },
            _ => Err(ParseError::UnexpectedToken("Expected path".to_string())),
        }
    }

    /// Reads the word `expected` at the cursor.
    pub fn expect_word(&mut self, expected: &str) -> (result: Result<(), ParseError>)
        ensures
            final(self).tokens() == old(self).tokens(),
            plain_result_view(result) == word_step(
                old(self).tokens(),
                old(self).position(),
                expected@,
            ).result,
            final(self).position() == word_step(
                old(self).tokens(),
                old(self).position(),
                expected@,
            ).position,
    {
        if self.position >= self.tokens.len() {
            return Err(ParseError::MissingToken(expected.to_string()));
        }
        match &self.tokens[self.position] {
            Token::Word(word) => {
                if same_text(word.as_str(), expected) {
                    self.position += 1;
                    Ok(())
                } else {
                    let mut text = labelled("Expected '", expected);
                    text.append("', got: ");
                    text.append(word.as_str());
                    Err(ParseError::UnexpectedToken(text))
                }
            },
            _ => {
                let mut text = labelled("Expected '", expected);
                text.append("', got different token type");
                Err(ParseError::UnexpectedToken(text))
            },
        }
    }

    /// Reads the output at the cursor: a path token, a word that holds a dot,
    /// or a format token, which stands for `input_path` with its extension
    /// replaced.
    pub fn parse_output_path_or_format(&mut self, input_path: &str) -> (result: Result<
        String,
        ParseError,
    >)
        ensures
            final(self).tokens() == old(self).tokens(),
            result_view(result) == output_step(
                old(self).tokens(),
                old(self).position(),
                input_path@,
            ).result,
            final(self).position() == output_step(
                old(self).tokens(),
                old(self).position(),
                input_path@,
            ).position,
    {
        if self.position >= self.tokens.len() {
            return Err(ParseError::MissingToken("output path or format".to_string()));
        }
        match &self.tokens[self.position] {
            Token::Path(path) => {
                self.position += 1;
                Ok(path.clone())
            },
            Token::Format(format) => {
                self.position += 1;
                match replace_extension(input_path, format.as_str()) {
                    Some(path) => Ok(path),
                    None => Err(ParseError::InvalidPath(input_path.to_string())),
                }
            },
            Token::Word(word) => {
                if contains_dot(word.as_str()) {
                    self.position += 1;
                    Ok(word.clone())
                } else {
                    Err(
                        ParseError::UnexpectedToken(
                            labelled("Expected path or format, got: ", word.as_str()),
                        ),
                    )
                }
            },
            _ => Err(ParseError::UnexpectedToken("Expected output path or format".to_string())),
        }
    }
}

} // verus!
