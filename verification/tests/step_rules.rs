use ff::grammar::parser::{ParseError, Parser};
use ff::grammar::tokenizer::{Token, Tokenizer};
use ff::intent::types::OperationType;

fn word(text: &str) -> Token {
    Token::Word(text.to_string())
}

fn path(text: &str) -> Token {
    Token::Path(text.to_string())
}

fn format(text: &str) -> Token {
    Token::Format(text.to_string())
}

#[test]
fn next_token_passes_over_blanks() {
    let mut tokenizer = Tokenizer::new("  \t convert\n video.mp4");
    assert_eq!(tokenizer.next_token(), Some(word("convert")));
    assert_eq!(tokenizer.next_token(), Some(path("video.mp4")));
    assert_eq!(tokenizer.next_token(), None);
    assert_eq!(tokenizer.next_token(), None);
}

#[test]
fn next_token_gives_nothing_at_the_end() {
    assert_eq!(Tokenizer::new("").next_token(), None);
    assert_eq!(Tokenizer::new("   ").next_token(), None);
    assert_eq!(Tokenizer::new("\r\n").next_token(), None);
}

#[test]
fn next_token_stops_before_what_begins_no_token() {
    let mut tokenizer = Tokenizer::new(" ! x");
    assert_eq!(tokenizer.next_token(), None);
    assert_eq!(tokenizer.next_token(), None);
    assert_eq!(tokenizer.tokenize(), vec![word("x")]);

    let mut tokenizer = Tokenizer::new("a \u{a0}b");
    assert_eq!(tokenizer.next_token(), Some(word("a")));
    assert_eq!(tokenizer.next_token(), None);
    assert_eq!(tokenizer.tokenize(), vec![word("b")]);
}

#[test]
fn next_token_reads_each_kind() {
    let mut tokenizer = Tokenizer::new(".AVI /a/b.c 12.5 Word name.ext _x");
    assert_eq!(tokenizer.next_token(), Some(format(".avi")));
    assert_eq!(tokenizer.next_token(), Some(path("/a/b.c")));
    assert_eq!(tokenizer.next_token(), Some(Token::Number("12.5".to_string())));
    assert_eq!(tokenizer.next_token(), Some(word("word")));
    assert_eq!(tokenizer.next_token(), Some(path("name.ext")));
    assert_eq!(tokenizer.next_token(), Some(word("_x")));
    assert_eq!(tokenizer.next_token(), None);
}

#[test]
fn next_token_and_tokenize_agree() {
    for text in ["convert video.mp4 to .avi", "  a  b ", "1.2.3 /x/y.z", "resize a.mp4 to b.gif  "] {
        let mut tokenizer = Tokenizer::new(text);
        let mut tokens = Vec::new();
        while let Some(token) = tokenizer.next_token() {
            tokens.push(token);
        }
        assert_eq!(tokens, Tokenizer::new(text).tokenize());
    }
}

#[test]
fn operation_step_reads_the_keywords() {
    for (keyword, operation) in [
        ("convert", OperationType::Convert),
        ("resize", OperationType::Resize),
        ("transcode", OperationType::Transcode),
        ("extract", OperationType::ExtractAudio),
        ("extractaudio", OperationType::ExtractAudio),
    ] {
        let mut parser = Parser::new(vec![word(keyword), path("a.mp4")]);
        assert_eq!(parser.parse_operation().unwrap(), operation);
        assert_eq!(parser.parse_path().unwrap(), "a.mp4");
    }
}

#[test]
fn operation_step_refuses_every_other_word() {
    for other in ["", "Convert", "CONVERT", "converts", "conver", "extract_audio", "to", "resiz"] {
        let mut parser = Parser::new(vec![word(other), path("a.mp4")]);
        match parser.parse_operation() {
            Err(ParseError::UnexpectedToken(text)) => {
                assert_eq!(text, format!("Unknown operation: {}", other))
            }
            result => panic!("expected UnexpectedToken, got {:?}", result),
        }
        assert_eq!(parser.parse_path().unwrap(), "a.mp4");
    }
}

#[test]
fn operation_step_stays_before_what_is_no_word() {
    let mut parser = Parser::new(vec![path("a.mp4")]);
    assert!(matches!(parser.parse_operation(), Err(ParseError::UnexpectedToken(_))));
    assert_eq!(parser.parse_path().unwrap(), "a.mp4");
    let mut parser = Parser::new(vec![]);
    assert!(matches!(parser.parse_operation(), Err(ParseError::MissingToken(_))));
}

#[test]
fn word_step_reads_the_word_asked_for() {
    let mut parser = Parser::new(vec![word("to"), word("from")]);
    assert!(parser.expect_word("to").is_ok());
    match parser.expect_word("to") {
        Err(ParseError::UnexpectedToken(text)) => assert_eq!(text, "Expected 'to', got: from"),
        result => panic!("expected UnexpectedToken, got {:?}", result),
    }
    assert!(parser.expect_word("from").is_ok());
    match parser.expect_word("more") {
        Err(ParseError::MissingToken(text)) => assert_eq!(text, "more"),
        result => panic!("expected MissingToken, got {:?}", result),
    }
}

#[test]
fn output_step_replaces_only_the_last_extension() {
    for (input, wanted, output) in [
        ("video.mp4", ".avi", "video.avi"),
        ("my_video.final.mp4", ".gif", "my_video.final.gif"),
        ("dir/video.mp4", ".mov", "dir/video.mov"),
        ("/tmp/a/video.mp4", ".webm", "/tmp/a/video.webm"),
        ("a-b/c~d/e_f.mp4", ".x_y", "a-b/c~d/e_f.x_y"),
        ("/video.mp4", ".avi", "//video.avi"),
        ("dir.d/video.mp4", ".", "dir.d/video."),
    ] {
        let mut parser = Parser::new(vec![format(wanted), word("next")]);
        assert_eq!(parser.parse_output_path_or_format(input).unwrap(), output);
        assert!(parser.expect_word("next").is_ok());
    }
}

#[test]
fn output_step_takes_paths_as_they_are() {
    let mut parser = Parser::new(vec![path("/x/y"), word("a.b"), word("ab")]);
    assert_eq!(parser.parse_output_path_or_format("in.mp4").unwrap(), "/x/y");
    assert_eq!(parser.parse_output_path_or_format("in.mp4").unwrap(), "a.b");
    match parser.parse_output_path_or_format("in.mp4") {
        Err(ParseError::UnexpectedToken(text)) => {
            assert_eq!(text, "Expected path or format, got: ab")
        }
        result => panic!("expected UnexpectedToken, got {:?}", result),
    }
}

#[test]
fn output_step_needs_a_file_to_rename() {
    let mut parser = Parser::new(vec![format(".avi")]);
    match parser.parse_output_path_or_format("..") {
        Err(ParseError::InvalidPath(text)) => assert_eq!(text, ".."),
        result => panic!("expected InvalidPath, got {:?}", result),
    }
}
