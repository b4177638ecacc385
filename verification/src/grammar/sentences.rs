//! What the grammar says of whole sentences: the tokens of a sentence of the
//! expected shape, and the intent that it states.

use crate::grammar::parser::{
    keyword_operation, operation_step, output_step, parse_tokens, path_step, word_step,
    ParseErrorView, Step,
};
use crate::grammar::tokenizer::{
    continues, run_end, starts_token, token_end, tokens_from, tokens_of, Run, TokenView,
};
use crate::intent::types::{IntentView, OperationType};
use crate::utils::file_utils::{
    directory_of, file_part, lemma_last_position, lemma_name_in_root, lemma_parts_of_name,
    lemma_parts_of_path, lemma_parts_of_single_name, lemma_path_supported,
    lemma_single_name_supported, name_character, path_with_format, path_with_replaced_extension,
    plain_path, single_name, stem_of, supported_extension, supported_format,
};
use crate::utils::text::{alphanumeric, digit, letter, lower, lowercase, without_leading_dots};
use vstd::prelude::*;

verus! {

/// A word such as `convert`: letters, digits and `_`, not beginning with a
/// digit.
pub open spec fn plain_word(word: Seq<char>) -> bool {
    &&& word.len() > 0
    &&& !digit(word[0])
    &&& forall|i: int| 0 <= i < word.len() ==> alphanumeric(#[trigger] word[i]) || word[i] == '_'
}

/// A file name such as `video.mp4`: letters, digits, `_` and at least one
/// dot, beginning with a letter or `_`.
pub open spec fn plain_file_name(name: Seq<char>) -> bool {
    &&& name.len() > 0
    &&& letter(name[0]) || name[0] == '_'
    &&& forall|i: int|
        0 <= i < name.len() ==> alphanumeric(#[trigger] name[i]) || name[i] == '_' || name[i]
            == '.'
    &&& name.contains('.')
}

/// A format such as `.avi`: a dot, and then letters and digits.
pub open spec fn plain_format(format: Seq<char>) -> bool {
    &&& format.len() > 0
    &&& format[0] == '.'
    &&& forall|i: int| 1 <= i < format.len() ==> alphanumeric(#[trigger] format[i])
}

/// A path such as `/tmp/video.mp4`: it begins with a slash and is made of
/// letters, digits, `/`, `_`, `-`, `~`, and dots that a letter or a digit
/// follows.
pub open spec fn rooted_path(path: Seq<char>) -> bool {
    &&& path.len() > 0
    &&& path[0] == '/'
    &&& forall|i: int| 0 <= i < path.len() ==> #[trigger] continues(Run::Path, path, i)
}

/// A text that is read as one path token: a file name or a rooted path.
pub open spec fn path_text(path: Seq<char>) -> bool {
    plain_file_name(path) || rooted_path(path)
}

/// The sentence `<operation> <input> to <output>`, with single spaces
/// between its parts.
pub open spec fn sentence(operation: Seq<char>, input: Seq<char>, output: Seq<char>) -> Seq<char> {
    operation + seq![' '] + input + seq![' ', 't', 'o', ' '] + output
}

/// A stretch that holds only characters of one kind of run, and that a
/// character of another kind or the end of the text follows, is the run
/// that begins where it begins.
pub proof fn lemma_run_end_unique(run: Run, text: Seq<char>, from: int, end: int)
    requires
        0 <= from <= end <= text.len(),
        forall|i: int| from <= i < end ==> continues(run, text, i),
        end < text.len() ==> !continues(run, text, end),
    ensures
        run_end(run, text, from) == end,
    decreases end - from,
{
    if from < end {
        assert(continues(run, text, from));
        lemma_run_end_unique(run, text, from + 1, end);
    }
}

/// A character with which no token begins is passed over.
pub proof fn lemma_passed_over(text: Seq<char>, from: int)
    requires
        0 <= from < text.len(),
        !starts_token(text[from]),
    ensures
        tokens_from(text, from) == tokens_from(text, from + 1),
{
}

/// A stretch of word characters that begins with a letter or `_`, and that
/// no word character follows, is one token: a path if it holds a dot, and
/// else a word, in lower case.
pub proof fn lemma_word_token(text: Seq<char>, from: int, end: int)
    requires
        0 <= from < end <= text.len(),
        letter(text[from]) || text[from] == '_',
        forall|i: int| from <= i < end ==> continues(Run::Word, text, i),
        end < text.len() ==> !continues(Run::Word, text, end),
    ensures
        tokens_from(text, from) == seq![
            if text.subrange(from, end).contains('.') {
                TokenView::Path(text.subrange(from, end))
            } else {
                TokenView::Word(lowercase(text.subrange(from, end)))
            },
        ] + tokens_from(text, end),
{
    lemma_run_end_unique(Run::Word, text, from, end);
    assert(token_end(text, from) == end);
}

/// A dot with the letters and digits that follow it, up to a character of
/// another kind or the end of the text, is one format token, in lower case.
pub proof fn lemma_format_token(text: Seq<char>, from: int, end: int)
    requires
        0 <= from < end <= text.len(),
        text[from] == '.',
        forall|i: int| from < i < end ==> alphanumeric(#[trigger] text[i]),
        end < text.len() ==> !alphanumeric(text[end]),
    ensures
        tokens_from(text, from) == seq![TokenView::Format(lowercase(text.subrange(from, end)))]
            + tokens_from(text, end),
{
    lemma_run_end_unique(Run::Alphanumeric, text, from + 1, end);
    assert(token_end(text, from) == end);
}

/// A stretch of path characters that begins with a slash, and that no path
/// character follows, is one path token.
pub proof fn lemma_path_token(text: Seq<char>, from: int, end: int)
    requires
        0 <= from < end <= text.len(),
        text[from] == '/',
        forall|i: int| from <= i < end ==> continues(Run::Path, text, i),
        end < text.len() ==> !continues(Run::Path, text, end),
    ensures
        tokens_from(text, from) == seq![TokenView::Path(text.subrange(from, end))] + tokens_from(
            text,
            end,
        ),
{
    lemma_run_end_unique(Run::Path, text, from, end);
    assert(token_end(text, from) == end);
}

/// A file name or a rooted path that stands in a text before a space or at
/// its end is one path token.
pub proof fn lemma_path_text_token(text: Seq<char>, from: int, path: Seq<char>)
    requires
        path_text(path),
        0 <= from,
        from + path.len() <= text.len(),
        text.subrange(from, from + path.len()) == path,
        from + path.len() < text.len() ==> text[from + path.len()] == ' ',
    ensures
        tokens_from(text, from) == seq![TokenView::Path(path)] + tokens_from(
            text,
            from + path.len(),
        ),
{
    let end = from + path.len();
    assert forall|i: int| from <= i < end implies text[i] == path[i - from] by {
        assert(text.subrange(from, end)[i - from] == text[i]);
    }
    if plain_file_name(path) {
        assert forall|i: int| from <= i < end implies continues(Run::Word, text, i) by {
            assert(alphanumeric(path[i - from]) || path[i - from] == '_' || path[i - from]
                == '.');
        }
        lemma_word_token(text, from, end);
    } else {
        assert forall|i: int| from <= i < end implies continues(Run::Path, text, i) by {
            assert(continues(Run::Path, path, i - from));
            if i + 1 < end {
                assert(text[i + 1] == path[i + 1 - from]);
            }
        }
        lemma_path_token(text, from, end);
    }
}

/// The tokens of a sentence, up to its output: the operation as a word in
/// lower case, the input as a path, and the word `to`. What follows is read
/// from where the output begins.
pub proof fn lemma_sentence_head(operation: Seq<char>, input: Seq<char>, output: Seq<char>)
    requires
        plain_word(operation),
        path_text(input),
    ensures
        tokens_of(sentence(operation, input, output)) == seq![
            TokenView::Word(lowercase(operation)),
            TokenView::Path(input),
            TokenView::Word("to"@),
        ] + tokens_from(
            sentence(operation, input, output),
            sentence(operation, input, output).len() - output.len(),
        ),
{
    let text = sentence(operation, input, output);
    let a = operation.len() as int;
    let b = a + 1;
    let c = b + input.len();
    let d = c + 1;
    let e = d + 2;
    let f = e + 1;
    assert(text.len() == f + output.len());
    assert forall|i: int| 0 <= i < a implies text[i] == operation[i] by {}
    assert(text[a] == ' ');
    assert forall|i: int| b <= i < c implies text[i] == input[i - b] by {}
    assert(text[c] == ' ');
    assert(text[d] == 't');
    assert(text[d + 1] == 'o');
    assert(text[e] == ' ');
    // the operation
    assert forall|i: int| 0 <= i < a implies continues(Run::Word, text, i) by {
        assert(alphanumeric(operation[i]) || operation[i] == '_');
    }
    assert(letter(text[0]) || text[0] == '_') by {
        assert(alphanumeric(operation[0]) || operation[0] == '_');
    }
    lemma_word_token(text, 0, a);
    assert(text.subrange(0, a) =~= operation);
    assert(!operation.contains('.')) by {
        if operation.contains('.') {
            let i = choose|i: int| 0 <= i < operation.len() && operation[i] == '.';
            assert(alphanumeric(operation[i]) || operation[i] == '_');
        }
    }
    lemma_passed_over(text, a);
    // the input
    assert(text.subrange(b, c) =~= input);
    lemma_path_text_token(text, b, input);
    lemma_passed_over(text, c);
    // the word `to`
    assert forall|i: int| d <= i < e implies continues(Run::Word, text, i) by {}
    lemma_word_token(text, d, e);
    reveal_strlit("to");
    assert(text.subrange(d, e) =~= "to"@);
    assert(!"to"@.contains('.')) by {
        if "to"@.contains('.') {
            let i = choose|i: int| 0 <= i < "to"@.len() && "to"@[i] == '.';
        }
    }
    assert(lowercase("to"@) =~= "to"@);
    lemma_passed_over(text, e);
    assert(tokens_of(text) =~= seq![
        TokenView::Word(lowercase(operation)),
        TokenView::Path(input),
        TokenView::Word("to"@),
    ] + tokens_from(text, f));
}

/// A sentence whose output is a file name has four tokens: the operation as
/// a word in lower case, the input as a path, the word `to`, and the output
/// as a path.
pub proof fn lemma_sentence_with_path(operation: Seq<char>, input: Seq<char>, output: Seq<char>)
    requires
        plain_word(operation),
        path_text(input),
        path_text(output),
    ensures
        tokens_of(sentence(operation, input, output)) == seq![
            TokenView::Word(lowercase(operation)),
            TokenView::Path(input),
            TokenView::Word("to"@),
            TokenView::Path(output),
        ],
{
    let text = sentence(operation, input, output);
    let f = text.len() - output.len();
    lemma_sentence_head(operation, input, output);
    assert(text.subrange(f, text.len() as int) =~= output);
    lemma_path_text_token(text, f, output);
    assert(tokens_from(text, text.len() as int) =~= Seq::<TokenView>::empty());
    assert(tokens_of(text) =~= seq![
        TokenView::Word(lowercase(operation)),
        TokenView::Path(input),
        TokenView::Word("to"@),
        TokenView::Path(output),
    ]);
}

/// A sentence whose output is a format has four tokens: the operation as a
/// word in lower case, the input as a path, the word `to`, and the format in
/// lower case.
pub proof fn lemma_sentence_with_format(operation: Seq<char>, input: Seq<char>, format: Seq<char>)
    requires
        plain_word(operation),
        path_text(input),
        plain_format(format),
    ensures
        tokens_of(sentence(operation, input, format)) == seq![
            TokenView::Word(lowercase(operation)),
            TokenView::Path(input),
            TokenView::Word("to"@),
            TokenView::Format(lowercase(format)),
        ],
{
    let text = sentence(operation, input, format);
    let f = text.len() - format.len();
    lemma_sentence_head(operation, input, format);
    assert forall|i: int| f <= i < text.len() implies text[i] == format[i - f] by {}
    assert forall|i: int| f < i < text.len() implies alphanumeric(#[trigger] text[i]) by {
        assert(alphanumeric(format[i - f]));
    }
    lemma_format_token(text, f, text.len() as int);
    assert(text.subrange(f, text.len() as int) =~= format);
    assert(tokens_from(text, text.len() as int) =~= Seq::<TokenView>::empty());
    assert(tokens_of(text) =~= seq![
        TokenView::Word(lowercase(operation)),
        TokenView::Path(input),
        TokenView::Word("to"@),
        TokenView::Format(lowercase(format)),
    ]);
}

/// Each of the keywords names its operation, and no other word names one.
pub proof fn lemma_keywords(word: Seq<char>)
    ensures
        keyword_operation("convert"@) == Some(OperationType::Convert),
        keyword_operation("resize"@) == Some(OperationType::Resize),
        keyword_operation("transcode"@) == Some(OperationType::Transcode),
        keyword_operation("extract"@) == Some(OperationType::ExtractAudio),
        keyword_operation("extractaudio"@) == Some(OperationType::ExtractAudio),
        keyword_operation(word) is Some <==> word == "convert"@ || word == "resize"@ || word
            == "transcode"@ || word == "extract"@ || word == "extractaudio"@,
{
    reveal_strlit("convert");
    reveal_strlit("resize");
    reveal_strlit("transcode");
    reveal_strlit("extract");
    reveal_strlit("extractaudio");
    assert("convert"@[0] != "resize"@[0]);
    assert("convert"@[0] != "transcode"@[0]);
    assert("convert"@[0] != "extract"@[0]);
    assert("convert"@[0] != "extractaudio"@[0]);
    assert("resize"@[0] != "transcode"@[0]);
    assert("resize"@[0] != "extract"@[0]);
    assert("resize"@[0] != "extractaudio"@[0]);
    assert("transcode"@[0] != "extract"@[0]);
    assert("transcode"@[0] != "extractaudio"@[0]);
}

/// A word that is a keyword when put in lower case is made of letters.
pub proof fn lemma_keyword_is_plain(word: Seq<char>)
    requires
        keyword_operation(lowercase(word)) is Some,
    ensures
        plain_word(word),
        forall|i: int| 0 <= i < word.len() ==> letter(#[trigger] word[i]),
{
    reveal_strlit("convert");
    reveal_strlit("resize");
    reveal_strlit("transcode");
    reveal_strlit("extract");
    reveal_strlit("extractaudio");
    let lowered = lowercase(word);
    assert(lowered.len() == word.len());
    assert forall|i: int| 0 <= i < word.len() implies letter(#[trigger] word[i]) by {
        assert(lowered[i] == lower(word[i]));
        assert('a' <= lowered[i] && lowered[i] <= 'z');
    }
    assert(letter(word[0]));
}

/// Reading a list of tokens from its beginning twice gives the same intent
/// or the same error, and reading the same text twice gives the same
/// tokens: both are functions of what is read.
pub proof fn lemma_same_input_same_result(
    first_text: Seq<char>,
    second_text: Seq<char>,
    first_tokens: Seq<TokenView>,
    second_tokens: Seq<TokenView>,
)
    ensures
        first_text == second_text ==> tokens_of(first_text) == tokens_of(second_text),
        first_tokens == second_tokens ==> parse_tokens(first_tokens) == parse_tokens(second_tokens),
        first_text == second_text ==> parse_tokens(tokens_of(first_text)) == parse_tokens(
            tokens_of(second_text),
        ),
{
}

/// The empty text has no tokens, and the empty list of tokens states no
/// command: the operation is missing.
pub proof fn lemma_nothing_to_read()
    ensures
        tokens_of(Seq::<char>::empty()) == Seq::<TokenView>::empty(),
        parse_tokens(Seq::<TokenView>::empty()) == Err::<IntentView, ParseErrorView>(
            ParseErrorView::MissingToken("operation"@),
        ),
{
}

/// The operation of a sentence is recognised in whatever case it is
/// written: `Convert` and `CONVERT` name the same operation as `convert`.
pub proof fn lemma_operation_in_any_case(
    operation: Seq<char>,
    input: Seq<char>,
    output: Seq<char>,
)
    requires
        keyword_operation(lowercase(operation)) is Some,
        path_text(input),
    ensures
        tokens_of(sentence(operation, input, output))[0] == TokenView::Word(lowercase(operation)),
        operation_step(tokens_of(sentence(operation, input, output)), 0).result == Ok::<
            OperationType,
            ParseErrorView,
        >(keyword_operation(lowercase(operation))->0),
{
    lemma_keyword_is_plain(operation);
    lemma_sentence_head(operation, input, output);
}

/// A sentence with a keyword, an input path and an output path states an
/// intent exactly when the format of the input is supported and that of the
/// output is supported or the output holds no dot.
/// Then the intent holds the operation that the keyword names and the two
/// names as they were written. Else the first name whose format is not
/// supported is reported.
pub proof fn lemma_formats_are_gated(operation: Seq<char>, input: Seq<char>, output: Seq<char>)
    requires
        keyword_operation(lowercase(operation)) is Some,
        path_text(input),
        path_text(output),
    ensures
        parse_tokens(tokens_of(sentence(operation, input, output))) == if !supported_format(
            input,
        ) {
            Err::<IntentView, ParseErrorView>(ParseErrorView::UnsupportedFormat(input))
        } else if output.contains('.') && !supported_format(output) {
            Err(ParseErrorView::UnsupportedFormat(output))
        } else {
            Ok(
                IntentView {
                    operation: keyword_operation(lowercase(operation))->0,
                    input_path: input,
                    output_path: output,
                    parameters: Map::empty(),
                },
            )
        },
{
    lemma_keyword_is_plain(operation);
    lemma_sentence_with_path(operation, input, output);
    let tokens = tokens_of(sentence(operation, input, output));
    assert(tokens[0] == TokenView::Word(lowercase(operation)));
    assert(tokens[1] == TokenView::Path(input));
    assert(tokens[2] == TokenView::Word("to"@));
    assert(tokens[3] == TokenView::Path(output));
    assert(operation_step(tokens, 0).position == 1);
    assert(path_step(tokens, 1).position == 2);
    assert(word_step(tokens, 2, "to"@).position == 3);
    assert(output_step(tokens, 3, input).position == 4);
}

/// A sentence with a keyword, an input file name and a format states the
/// intent to write the input file, with its extension replaced by that of
/// the format in lower case, beside the input file: the directory and the
/// stem of the input path are kept. It does so exactly when the formats of
/// the input and of the path so made are supported.
pub proof fn lemma_format_replaces_extension(
    operation: Seq<char>,
    input: Seq<char>,
    format: Seq<char>,
)
    requires
        keyword_operation(lowercase(operation)) is Some,
        path_text(input),
        plain_format(format),
    ensures
        parse_tokens(tokens_of(sentence(operation, input, format))) == if !supported_format(
            input,
        ) {
            Err::<IntentView, ParseErrorView>(ParseErrorView::UnsupportedFormat(input))
        } else {
            match path_with_replaced_extension(input, lowercase(format)) {
                None => Err(ParseErrorView::InvalidPath(input)),
                Some(output) => if !supported_format(output) {
                    Err(ParseErrorView::UnsupportedFormat(output))
                } else {
                    Ok(
                        IntentView {
                            operation: keyword_operation(lowercase(operation))->0,
                            input_path: input,
                            output_path: output,
                            parameters: Map::empty(),
                        },
                    )
                },
            }
        },
{
    lemma_keyword_is_plain(operation);
    lemma_sentence_with_format(operation, input, format);
    let tokens = tokens_of(sentence(operation, input, format));
    assert(tokens[0] == TokenView::Word(lowercase(operation)));
    assert(tokens[1] == TokenView::Path(input));
    assert(tokens[2] == TokenView::Word("to"@));
    assert(tokens[3] == TokenView::Format(lowercase(format)));
    assert(operation_step(tokens, 0).position == 1);
    assert(path_step(tokens, 1).position == 2);
    assert(word_step(tokens, 2, "to"@).position == 3);
    assert(output_step(tokens, 3, input).position == 4);
    match path_with_replaced_extension(input, lowercase(format)) {
        Some(output) => {
            lemma_replaced_path_holds_dot(input, lowercase(format));
        },
        None => {},
    }
}

/// A path whose extension was replaced holds a dot.
pub proof fn lemma_replaced_path_holds_dot(path: Seq<char>, format: Seq<char>)
    requires
        path_with_replaced_extension(path, format) is Some,
    ensures
        path_with_replaced_extension(path, format)->0.contains('.'),
{
    let stem = stem_of(path)->0;
    let directory = match directory_of(path) {
        Some(directory) => directory,
        None => Seq::empty(),
    };
    let replaced = path_with_replaced_extension(path, format)->0;
    if directory.len() == 0 {
        assert(replaced[stem.len() as int] == '.');
    } else {
        assert(replaced[(directory.len() + 1 + stem.len()) as int] == '.');
    }
}

/// Whether `text` holds letters and digits only.
pub open spec fn alphanumeric_text(text: Seq<char>) -> bool {
    forall|i: int| 0 <= i < text.len() ==> alphanumeric(#[trigger] text[i])
}

/// The file name with the given stem and extension.
pub open spec fn file_name(stem: Seq<char>, extension: Seq<char>) -> Seq<char> {
    stem + seq!['.'] + extension
}

/// A stem such as `video` or `my_video.final`: letters, digits, `_` and
/// dots, beginning with a letter or `_`.
pub open spec fn plain_stem(stem: Seq<char>) -> bool {
    &&& stem.len() > 0
    &&& letter(stem[0]) || stem[0] == '_'
    &&& forall|i: int|
        0 <= i < stem.len() ==> alphanumeric(#[trigger] stem[i]) || stem[i] == '_' || stem[i]
            == '.'
}

/// A stem is a single file name.
pub proof fn lemma_stem_is_single_name(stem: Seq<char>)
    requires
        plain_stem(stem),
    ensures
        single_name(stem),
{
    assert forall|i: int| 0 <= i < stem.len() implies name_character(#[trigger] stem[i]) by {
        assert(alphanumeric(stem[i]) || stem[i] == '_' || stem[i] == '.');
    }
}

/// A stem, a dot, and letters and digits make a file name.
pub proof fn lemma_file_name_is_plain(stem: Seq<char>, extension: Seq<char>)
    requires
        plain_stem(stem),
        alphanumeric_text(extension),
    ensures
        plain_file_name(file_name(stem, extension)),
{
    let name = file_name(stem, extension);
    let at = stem.len() as int;
    assert forall|i: int| 0 <= i < name.len() implies alphanumeric(#[trigger] name[i]) || name[i]
        == '_' || name[i] == '.' by {
        if i < at {
            assert(name[i] == stem[i]);
        } else if i > at {
            assert(name[i] == extension[i - at - 1]);
        }
    }
    assert(name[0] == stem[0]);
    assert(name[at] == '.');
}

/// Putting a text of letters and digits in lower case leaves letters and
/// digits, and doing so twice changes nothing more.
pub proof fn lemma_lowercase_of_alphanumeric(text: Seq<char>)
    requires
        alphanumeric_text(text),
    ensures
        alphanumeric_text(lowercase(text)),
        lowercase(lowercase(text)) == lowercase(text),
        without_leading_dots(lowercase(seq!['.'] + text)) == lowercase(text),
        plain_format(seq!['.'] + text),
{
    let low = lowercase(text);
    assert forall|i: int| 0 <= i < low.len() implies alphanumeric(#[trigger] low[i]) by {
        assert(alphanumeric(text[i]));
    }
    assert(lowercase(low) =~= low);
    let dotted = lowercase(seq!['.'] + text);
    assert(dotted.drop_first() =~= low);
    assert(dotted[0] == '.');
    if low.len() > 0 {
        assert(alphanumeric(low[0]));
    }
    assert(without_leading_dots(low) == low);
    assert forall|i: int| 1 <= i < (seq!['.'] + text).len() implies alphanumeric(
        #[trigger] (seq!['.'] + text)[i],
    ) by {
        assert((seq!['.'] + text)[i] == text[i - 1]);
    }
}

/// A sentence whose two file names have the same extension of letters and
/// digits states an intent exactly when that extension, in lower case, is
/// one of the supported ones. Else the input is reported as unsupported.
pub proof fn lemma_extension_decides(
    operation: Seq<char>,
    input_stem: Seq<char>,
    output_stem: Seq<char>,
    extension: Seq<char>,
)
    requires
        keyword_operation(lowercase(operation)) is Some,
        plain_stem(input_stem),
        plain_stem(output_stem),
        alphanumeric_text(extension),
    ensures
        parse_tokens(
            tokens_of(
                sentence(
                    operation,
                    file_name(input_stem, extension),
                    file_name(output_stem, extension),
                ),
            ),
        ) == if supported_extension(lowercase(extension)) {
            Ok::<IntentView, ParseErrorView>(
                IntentView {
                    operation: keyword_operation(lowercase(operation))->0,
                    input_path: file_name(input_stem, extension),
                    output_path: file_name(output_stem, extension),
                    parameters: Map::empty(),
                },
            )
        } else {
            Err(ParseErrorView::UnsupportedFormat(file_name(input_stem, extension)))
        },
{
    lemma_file_name_is_plain(input_stem, extension);
    lemma_file_name_is_plain(output_stem, extension);
    lemma_stem_is_single_name(input_stem);
    lemma_stem_is_single_name(output_stem);
    lemma_single_name_supported(input_stem, extension);
    lemma_single_name_supported(output_stem, extension);
    lemma_formats_are_gated(
        operation,
        file_name(input_stem, extension),
        file_name(output_stem, extension),
    );
}

/// A sentence with a file name and a format states the intent to write the
/// file of the same stem with the extension of the format, in lower case. It
/// does so exactly when both extensions, in lower case, are supported. Else
/// the first file name whose extension is not supported is reported.
pub proof fn lemma_format_keeps_stem(
    operation: Seq<char>,
    stem: Seq<char>,
    extension: Seq<char>,
    wanted: Seq<char>,
)
    requires
        keyword_operation(lowercase(operation)) is Some,
        plain_stem(stem),
        alphanumeric_text(extension),
        alphanumeric_text(wanted),
    ensures
        parse_tokens(
            tokens_of(sentence(operation, file_name(stem, extension), seq!['.'] + wanted)),
        ) == if !supported_extension(lowercase(extension)) {
            Err::<IntentView, ParseErrorView>(
                ParseErrorView::UnsupportedFormat(file_name(stem, extension)),
            )
        } else if !supported_extension(lowercase(wanted)) {
            Err(ParseErrorView::UnsupportedFormat(file_name(stem, lowercase(wanted))))
        } else {
            Ok(
                IntentView {
                    operation: keyword_operation(lowercase(operation))->0,
                    input_path: file_name(stem, extension),
                    output_path: file_name(stem, lowercase(wanted)),
                    parameters: Map::empty(),
                },
            )
        },
{
    let input = file_name(stem, extension);
    let format = seq!['.'] + wanted;
    lemma_file_name_is_plain(stem, extension);
    lemma_stem_is_single_name(stem);
    lemma_lowercase_of_alphanumeric(wanted);
    lemma_parts_of_single_name(stem, extension);
    lemma_single_name_supported(stem, extension);
    lemma_single_name_supported(stem, lowercase(wanted));
    assert(path_with_replaced_extension(input, lowercase(format)) == Some(
        file_name(stem, lowercase(wanted)),
    ));
    lemma_format_replaces_extension(operation, input, format);
}

/// A dot before a text that begins with no dot is all that is taken away
/// from the two together.
pub proof fn lemma_one_leading_dot(text: Seq<char>)
    requires
        text.len() == 0 || text[0] != '.',
    ensures
        without_leading_dots(seq!['.'] + text) == text,
{
    assert((seq!['.'] + text).drop_first() =~= text);
    assert(without_leading_dots(text) == text);
}

/// A format that is read after an input file name stands for the name of
/// the same stem with the extension of the format. Only the last extension
/// is replaced, and one dot stands before the new one.
pub proof fn lemma_format_keeps_name(
    tokens: Seq<TokenView>,
    at: int,
    stem: Seq<char>,
    extension: Seq<char>,
    wanted: Seq<char>,
)
    requires
        0 <= at < tokens.len(),
        tokens[at] == TokenView::Format(seq!['.'] + wanted),
        single_name(stem),
        alphanumeric_text(extension),
        wanted.len() == 0 || wanted[0] != '.',
    ensures
        output_step(tokens, at, file_name(stem, extension)) == (Step {
            result: Ok(file_name(stem, wanted)),
            position: at + 1,
        }),
{
    lemma_parts_of_single_name(stem, extension);
    lemma_one_leading_dot(wanted);
}

/// A format that is read after an input in a plain directory stands for the
/// file of the same stem in the same directory, with the extension of the
/// format.
pub proof fn lemma_format_keeps_directory(
    tokens: Seq<TokenView>,
    at: int,
    directory: Seq<char>,
    stem: Seq<char>,
    extension: Seq<char>,
    wanted: Seq<char>,
)
    requires
        0 <= at < tokens.len(),
        tokens[at] == TokenView::Format(seq!['.'] + wanted),
        plain_path(directory),
        single_name(stem),
        alphanumeric_text(extension),
        wanted.len() == 0 || wanted[0] != '.',
    ensures
        output_step(tokens, at, directory + seq!['/'] + file_name(stem, extension)) == (Step {
            result: Ok(directory + seq!['/'] + file_name(stem, wanted)),
            position: at + 1,
        }),
{
    lemma_parts_of_path(directory, stem, extension);
    lemma_one_leading_dot(wanted);
    assert(directory.len() > 0) by {
        lemma_last_position(directory, '/');
        assert(file_part(directory).len() > 0);
    }
    assert(path_with_format(directory, stem, seq!['.'] + wanted) =~= directory + seq!['/']
        + file_name(stem, wanted));
}

/// A format that is read after an input in the root stands for the file of
/// the same stem with the extension of the format. The root and the slash
/// that joins a directory to a name both stand before it.
pub proof fn lemma_format_in_root(
    tokens: Seq<TokenView>,
    at: int,
    stem: Seq<char>,
    extension: Seq<char>,
    wanted: Seq<char>,
)
    requires
        0 <= at < tokens.len(),
        tokens[at] == TokenView::Format(seq!['.'] + wanted),
        single_name(stem),
        alphanumeric_text(extension),
        wanted.len() == 0 || wanted[0] != '.',
    ensures
        output_step(tokens, at, seq!['/'] + file_name(stem, extension)) == (Step {
            result: Ok(seq!['/', '/'] + file_name(stem, wanted)),
            position: at + 1,
        }),
{
    lemma_parts_of_name(stem, extension);
    lemma_name_in_root(file_name(stem, extension));
    lemma_one_leading_dot(wanted);
    assert(path_with_format(seq!['/'], stem, seq!['.'] + wanted) =~= seq!['/', '/'] + file_name(
        stem,
        wanted,
    ));
}

/// A sentence with a file in a plain directory and a format states the
/// intent to write, in the same directory, the file of the same stem with
/// the extension of the format in lower case. It does so exactly when both
/// extensions, in lower case, are supported. Else the first path whose
/// extension is not supported is reported.
pub proof fn lemma_format_keeps_directory_and_stem(
    operation: Seq<char>,
    directory: Seq<char>,
    stem: Seq<char>,
    extension: Seq<char>,
    wanted: Seq<char>,
)
    requires
        keyword_operation(lowercase(operation)) is Some,
        plain_path(directory),
        single_name(stem),
        alphanumeric_text(extension),
        alphanumeric_text(wanted),
        rooted_path(directory + seq!['/'] + file_name(stem, extension)),
    ensures
        parse_tokens(
            tokens_of(
                sentence(
                    operation,
                    directory + seq!['/'] + file_name(stem, extension),
                    seq!['.'] + wanted,
                ),
            ),
        ) == if !supported_extension(lowercase(extension)) {
            Err::<IntentView, ParseErrorView>(
                ParseErrorView::UnsupportedFormat(
                    directory + seq!['/'] + file_name(stem, extension),
                ),
            )
        } else if !supported_extension(lowercase(wanted)) {
            Err(
                ParseErrorView::UnsupportedFormat(
                    directory + seq!['/'] + file_name(stem, lowercase(wanted)),
                ),
            )
        } else {
            Ok(
                IntentView {
                    operation: keyword_operation(lowercase(operation))->0,
                    input_path: directory + seq!['/'] + file_name(stem, extension),
                    output_path: directory + seq!['/'] + file_name(stem, lowercase(wanted)),
                    parameters: Map::empty(),
                },
            )
        },
{
    let input = directory + seq!['/'] + file_name(stem, extension);
    let format = seq!['.'] + wanted;
    let output = directory + seq!['/'] + file_name(stem, lowercase(wanted));
    lemma_lowercase_of_alphanumeric(wanted);
    lemma_parts_of_path(directory, stem, extension);
    lemma_path_supported(directory, stem, extension);
    lemma_path_supported(directory, stem, lowercase(wanted));
    assert(directory.len() > 0) by {
        lemma_last_position(directory, '/');
        assert(file_part(directory).len() > 0);
    }
    assert(path_with_format(directory, stem, lowercase(format)) =~= output);
    assert(path_with_replaced_extension(input, lowercase(format)) == Some(output));
    lemma_format_replaces_extension(operation, input, format);
}

} // verus!
