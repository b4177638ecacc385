use crate::utils::text::{
    alphanumeric, blank, contains_dot, digit, is_alphanumeric, is_blank, is_digit, lowercase,
    to_lowercase,
};
use vstd::prelude::*;

verus! {

/// A lexical unit of a command.
#[derive(Debug, Clone, PartialEq, Eq)]
pub enum Token {
    /// A regular word token, in lower case
    Word(String),
    /// A file path token
    Path(String),
    /// A format token (e.g., .mp4, .avi), in lower case
    Format(String),
    /// A numeric value, as the decimal numeral that was written
    Number(String),
    /// An unknown token type
    Unknown(String),
}

/// What a [`Token`] says, with its text as a character sequence.
pub enum TokenView {
    Word(Seq<char>),
    Path(Seq<char>),
    Format(Seq<char>),
    Number(Seq<char>),
    Unknown(Seq<char>),
}

impl View for Token {
    type V = TokenView;

    open spec fn view(&self) -> TokenView {
        match self {
            Token::Word(text) => TokenView::Word(text@),
            Token::Path(text) => TokenView::Path(text@),
            Token::Format(text) => TokenView::Format(text@),
            Token::Number(text) => TokenView::Number(text@),
            Token::Unknown(text) => TokenView::Unknown(text@),
        }
    }
}

/// What a list of tokens says.
pub open spec fn token_views(tokens: Seq<Token>) -> Seq<TokenView> {
    Seq::new(tokens.len(), |i: int| tokens[i]@)
}

/// The kinds of runs of characters that tokens are made of.
#[derive(Debug, Clone, Copy, PartialEq, Eq)]
pub enum Run {
    /// Letters and digits
    Alphanumeric,
    /// Digits
    Digits,
    /// Letters, digits, `_` and `.`
    Word,
    /// Letters, digits, `/`, `_`, `-`, `~`, and each `.` that a letter or a
    /// digit follows
    Path,
}

/// Whether the character of `text` at `at` belongs to a run of the kind
/// `run`.
pub open spec fn continues(run: Run, text: Seq<char>, at: int) -> bool {
    let c = text[at];
    match run {
        Run::Alphanumeric => alphanumeric(c),
        Run::Digits => digit(c),
        Run::Word => alphanumeric(c) || c == '_' || c == '.',
        Run::Path => alphanumeric(c) || c == '/' || c == '_' || c == '-' || c == '~' || (c == '.'
            && at + 1 < text.len() && alphanumeric(text[at + 1])),
    }
}

/// Where the longest run of the kind `run` that begins at `from` ends: the
/// first position from `from` on whose character does not belong to the run,
/// or the end of the text.
pub open spec fn run_end(run: Run, text: Seq<char>, from: int) -> int
    decreases text.len() - from,
{
    if 0 <= from < text.len() && continues(run, text, from) {
        run_end(run, text, from + 1)
    } else {
        from
    }
}

/// Where the blanks that begin at `from` end: the first position from `from`
/// on whose character is no blank, or the end of the text.
pub open spec fn blanks_end(text: Seq<char>, from: int) -> int
    decreases text.len() - from,
{
    if 0 <= from < text.len() && blank(text[from]) {
        blanks_end(text, from + 1)
    } else {
        from
    }
}

/// Whether a token can begin with `c`: a dot begins a format, a slash a
/// path, a digit a number, a letter or `_` a word.
pub open spec fn starts_token(c: char) -> bool {
    c == '.' || c == '/' || alphanumeric(c) || c == '_'
}

/// Where the token that begins at `from` ends.
///
/// A format is its dot and the letters and digits that follow. A path runs
/// on through path characters. A number is digits, and a dot with further
/// digits if a dot follows the first digits. A word runs on through word
/// characters.
pub open spec fn token_end(text: Seq<char>, from: int) -> int {
    let c = text[from];
    if c == '.' {
        run_end(Run::Alphanumeric, text, from + 1)
    } else if c == '/' {
        run_end(Run::Path, text, from)
    } else if digit(c) {
        let whole = run_end(Run::Digits, text, from);
        if whole < text.len() && text[whole] == '.' {
            run_end(Run::Digits, text, whole + 1)
        } else {
            whole
        }
    } else {
        run_end(Run::Word, text, from)
    }
}

/// The token that begins at `from`, where a token can begin.
///
/// Formats and words are put in lower case. A run of word characters that
/// holds a dot is a path and keeps its case.
pub open spec fn token_at(text: Seq<char>, from: int) -> TokenView {
    let c = text[from];
    let lexeme = text.subrange(from, token_end(text, from));
    if c == '.' {
        TokenView::Format(lowercase(lexeme))
    } else if c == '/' {
        TokenView::Path(lexeme)
    } else if digit(c) {
        TokenView::Number(lexeme)
    } else if lexeme.contains('.') {
        TokenView::Path(lexeme)
    } else {
        TokenView::Word(lowercase(lexeme))
    }
}

/// The tokens of `text` from `from` on: at each position where a token can
/// begin, the longest token that begins there, then the tokens after it.
/// Blanks and all other characters with which no token begins are passed
/// over.
pub open spec fn tokens_from(text: Seq<char>, from: int) -> Seq<TokenView>
    decreases text.len() - from,
{
    if from < 0 || from >= text.len() {
        Seq::empty()
    } else if starts_token(text[from]) {
        proof {
            lemma_token_end(text, from);
        }
        seq![token_at(text, from)] + tokens_from(text, token_end(text, from))
    } else {
        tokens_from(text, from + 1)
    }
}

/// The tokens of `text`.
pub open spec fn tokens_of(text: Seq<char>) -> Seq<TokenView> {
    tokens_from(text, 0)
}

/// A run ends within the text, holds only characters of its kind, and cannot
/// be made longer.
pub proof fn lemma_run_end(run: Run, text: Seq<char>, from: int)
    requires
        0 <= from <= text.len(),
    ensures
        from <= run_end(run, text, from) <= text.len(),
        forall|i: int| from <= i < run_end(run, text, from) ==> continues(run, text, i),
        run_end(run, text, from) < text.len() ==> !continues(
            run,
            text,
            run_end(run, text, from),
        ),
    decreases text.len() - from,
{
    if from < text.len() && continues(run, text, from) {
        lemma_run_end(run, text, from + 1);
    }
}

/// A token is not empty and ends within the text.
pub proof fn lemma_token_end(text: Seq<char>, from: int)
    requires
        0 <= from < text.len(),
        starts_token(text[from]),
    ensures
        from < token_end(text, from) <= text.len(),
{
    lemma_run_end(Run::Alphanumeric, text, from + 1);
    lemma_run_end(Run::Path, text, from);
    lemma_run_end(Run::Digits, text, from);
    lemma_run_end(Run::Word, text, from);
    let whole = run_end(Run::Digits, text, from);
    if whole < text.len() {
        lemma_run_end(Run::Digits, text, whole + 1);
    }
}

/// Blanks are passed over: the tokens from a position on are the tokens from
/// the end of the blanks that begin there, which lies no further back.
pub proof fn lemma_blanks_passed_over(text: Seq<char>, from: int)
    ensures
        from <= blanks_end(text, from),
        from <= text.len() ==> blanks_end(text, from) <= text.len(),
        tokens_from(text, from) == tokens_from(text, blanks_end(text, from)),
    decreases text.len() - from,
{
    if 0 <= from < text.len() && blank(text[from]) {
        lemma_blanks_passed_over(text, from + 1);
    }
}

/// No token of a text is of the unknown kind: every run of characters that
/// begins a token is a format, a path, a number or a word.
pub proof fn lemma_tokens_are_known(text: Seq<char>, from: int)
    ensures
        forall|i: int|
            0 <= i < tokens_from(text, from).len() ==> !(#[trigger] tokens_from(text, from)[i]
                is Unknown),
    decreases text.len() - from,
{
    if 0 <= from < text.len() {
        if starts_token(text[from]) {
            lemma_token_end(text, from);
            lemma_tokens_are_known(text, token_end(text, from));
        } else {
            lemma_tokens_are_known(text, from + 1);
        }
    }
}

/// Tokenizer for converting plain English commands into tokens.
pub struct Tokenizer {
    text: String,
    position: usize,
}

impl Tokenizer {
    /// The text that this tokenizer reads.
    pub closed spec fn text(&self) -> Seq<char> {
        self.text@
    }

    /// The index of the character that this tokenizer reads next.
    pub closed spec fn position(&self) -> int {
        self.position as int
    }

    /// Creates a new tokenizer that stands at the beginning of `text`.
    pub fn new(text: &str) -> (tokenizer: Self)
        ensures
            tokenizer.text() == text@,
            tokenizer.position() == 0,
    {
        Self { text: text.to_string(), position: 0 }
    }

    /// Tokenizes the text from the cursor on and leaves the cursor at the
    /// end of the text. The tokenizer that [`Tokenizer::new`] returns gives
    /// the tokens of the whole text.
    pub fn tokenize(&mut self) -> (tokens: Vec<Token>)
        ensures
            token_views(tokens@) == tokens_from(old(self).text(), old(self).position()),
            final(self).text() == old(self).text(),
            final(self).position() == if old(self).position() <= old(self).text().len() {
                old(self).text().len() as int
            } else {
                old(self).position()
            },
    {
        let length = self.text.as_str().unicode_len();
        let ghost text = self.text@;
        let ghost start = self.position as int;
        let mut tokens: Vec<Token> = Vec::new();
        assert(token_views(tokens@) =~= Seq::<TokenView>::empty());
        while self.position < length
            invariant
                self.text@ == text,
                length == text.len(),
                start <= self.position,
                start <= length ==> self.position <= length,
                start > length ==> self.position == start,
                token_views(tokens@) + tokens_from(text, self.position as int) == tokens_from(
                    text,
                    start,
                ),
            decreases length - self.position,
        {
            let ghost before = token_views(tokens@);
            let ghost at = blanks_end(text, self.position as int);
            proof {
                lemma_blanks_passed_over(text, self.position as int);
                if at < text.len() && starts_token(text[at]) {
                    lemma_token_end(text, at);
                }
            }
            match self.next_token() {
                Some(token) => {
                    tokens.push(token);
                    assert(token_views(tokens@) =~= before + seq![token@]);
                    assert(token_views(tokens@) + tokens_from(text, self.position as int)
                        =~= before + (seq![token@] + tokens_from(text, self.position as int)));
                },
                None => {
                    if self.position < length {
                        self.position += 1;
                    }
                },
            }
        }
        assert(token_views(tokens@) + Seq::<TokenView>::empty() =~= token_views(tokens@));
        tokens
    }

    /// Passes over the blanks at the cursor and reads the token that begins
    /// after them. Returns nothing, and leaves the cursor after the blanks,
    /// where the text ends there or a character follows with which no token
    /// begins.
    pub fn next_token(&mut self) -> (token: Option<Token>)
        ensures
            final(self).text() == old(self).text(),
            match token {
                Some(found) => {
                    let at = blanks_end(old(self).text(), old(self).position());
                    &&& at < old(self).text().len()
                    &&& starts_token(old(self).text()[at])
                    &&& found@ == token_at(old(self).text(), at)
                    &&& final(self).position() == token_end(old(self).text(), at)
                },
                None => {
                    let at = blanks_end(old(self).text(), old(self).position());
                    &&& final(self).position() == at
                    &&& (at >= old(self).text().len() || !starts_token(old(self).text()[at]))
                },
            },
    {
        let length = self.text.as_str().unicode_len();
        let ghost text = self.text@;
        let ghost start = self.position as int;
        while self.position < length && is_blank(self.text.as_str().get_char(self.position))
            invariant
                self.text@ == text,
                length == text.len(),
                start <= self.position,
                start <= length ==> self.position <= length,
                blanks_end(text, self.position as int) == blanks_end(text, start),
            decreases length - self.position,
        {
            self.position += 1;
        }
        if self.position >= length {
            return None;
        }
        let first = self.text.as_str().get_char(self.position);
        if first == '.' {
            return Some(self.tokenize_format());
        }
        if first == '/' {
            return Some(self.tokenize_path());
        }
        if is_digit(first) {
            return Some(self.tokenize_number());
        }
        if is_alphanumeric(first) || first == '_' {
            return Some(self.tokenize_word());
        }
        None
    }

    /// Moves the cursor to the end of the run of the kind `run` that begins
    /// at it.
    fn skip_run(&mut self, run: Run)
        requires
            old(self).position <= old(self).text@.len(),
        ensures
            final(self).text@ == old(self).text@,
            final(self).position == run_end(run, old(self).text@, old(self).position as int),
    {
        let length = self.text.as_str().unicode_len();
        let ghost text = self.text@;
        let ghost start = self.position as int;
        while self.position < length && self.run_continues(run, length)
            invariant
                self.text@ == text,
                length == text.len(),
                start <= self.position <= length,
                run_end(run, text, self.position as int) == run_end(run, text, start),
            decreases length - self.position,
        {
            self.position += 1;
        }
    }

    /// Whether the character at the cursor belongs to a run of the kind
    /// `run`.
    fn run_continues(&self, run: Run, length: usize) -> (goes_on: bool)
        requires
            length == self.text@.len(),
            self.position < length,
        ensures
            goes_on == continues(run, self.text@, self.position as int),
    {
        let c = self.text.as_str().get_char(self.position);
        match run {
            Run::Alphanumeric => is_alphanumeric(c),
            Run::Digits => is_digit(c),
            Run::Word => is_alphanumeric(c) || c == '_' || c == '.',
            Run::Path => is_alphanumeric(c) || c == '/' || c == '_' || c == '-' || c == '~' || (c
                == '.' && self.position + 1 < length && is_alphanumeric(
                self.text.as_str().get_char(self.position + 1),
            )),
        }
    }

    /// The text between `start` and the cursor.
    fn lexeme(&self, start: usize) -> (lexeme: &str)
        requires
            start <= self.position <= self.text@.len(),
        ensures
            lexeme@ == self.text@.subrange(start as int, self.position as int),
    {
        self.text.as_str().substring_char(start, self.position)
    }

    /// Reads the word, or the path without a leading slash, that begins at
    /// the cursor.
    fn tokenize_word(&mut self) -> (token: Token)
        requires
            old(self).position < old(self).text@.len(),
            starts_token(old(self).text@[old(self).position as int]),
            old(self).text@[old(self).position as int] != '.',
            old(self).text@[old(self).position as int] != '/',
            !digit(old(self).text@[old(self).position as int]),
        ensures
            final(self).text@ == old(self).text@,
            final(self).position == token_end(old(self).text@, old(self).position as int),
            token@ == token_at(old(self).text@, old(self).position as int),
    {
        let start = self.position;
        self.skip_run(Run::Word);
        proof {
            lemma_token_end(self.text@, start as int);
        }
        let word = self.lexeme(start);
        if contains_dot(word) {
            Token::Path(word.to_string())
        } else {
            proof {
                lemma_run_end(Run::Word, self.text@, start as int);
                assert forall|i: int| 0 <= i < word@.len() implies #[trigger] word@[i]
                    <= '\x7f' by {
                    assert(continues(Run::Word, self.text@, start + i));
                }
            }
            Token::Word(to_lowercase(word))
        }
    }

    /// Reads the path that begins with the slash at the cursor.
    fn tokenize_path(&mut self) -> (token: Token)
        requires
            old(self).position < old(self).text@.len(),
            old(self).text@[old(self).position as int] == '/',
        ensures
            final(self).text@ == old(self).text@,
            final(self).position == token_end(old(self).text@, old(self).position as int),
            token@ == token_at(old(self).text@, old(self).position as int),
    {
        let start = self.position;
        self.skip_run(Run::Path);
        proof {
            lemma_token_end(self.text@, start as int);
        }
        Token::Path(self.lexeme(start).to_string())
    }

    /// Reads the format that begins with the dot at the cursor.
    fn tokenize_format(&mut self) -> (token: Token)
        requires
            old(self).position < old(self).text@.len(),
            old(self).text@[old(self).position as int] == '.',
        ensures
            final(self).text@ == old(self).text@,
            final(self).position == token_end(old(self).text@, old(self).position as int),
            token@ == token_at(old(self).text@, old(self).position as int),
    {
        let start = self.position;
        let length = self.text.as_str().unicode_len();
        if self.position < length && self.text.as_str().get_char(self.position) == '.' {
            self.position += 1;
        }
        self.skip_run(Run::Alphanumeric);
        proof {
            lemma_token_end(self.text@, start as int);
            lemma_run_end(Run::Alphanumeric, self.text@, start + 1);
        }
        let format = self.lexeme(start);
        proof {
            assert forall|i: int| 0 <= i < format@.len() implies #[trigger] format@[i]
                <= '\x7f' by {
                if i > 0 {
                    assert(continues(Run::Alphanumeric, self.text@, start + i));
                }
            }
        }
        Token::Format(to_lowercase(format))
    }

    /// Reads the number that begins with the digit at the cursor.
    fn tokenize_number(&mut self) -> (token: Token)
        requires
            old(self).position < old(self).text@.len(),
            digit(old(self).text@[old(self).position as int]),
        ensures
            final(self).text@ == old(self).text@,
            final(self).position == token_end(old(self).text@, old(self).position as int),
            token@ == token_at(old(self).text@, old(self).position as int),
    {
        let start = self.position;
        let length = self.text.as_str().unicode_len();
        self.skip_run(Run::Digits);
        proof {
            lemma_run_end(Run::Digits, self.text@, start as int);
        }
        if self.position < length && self.text.as_str().get_char(self.position) == '.' {
            self.position += 1;
            self.skip_run(Run::Digits);
        }
        proof {
            lemma_token_end(self.text@, start as int);
        }
        Token::Number(self.lexeme(start).to_string())
    }
}

} // verus!
