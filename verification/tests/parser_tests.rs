use ff::grammar::parser::Parser;
use ff::grammar::tokenizer::Tokenizer;
use ff::intent::types::OperationType;
use std::path::PathBuf;

#[test]
fn test_parse_convert_command() {
    let mut tokenizer = Tokenizer::new("convert video.mp4 to video.avi");
    let tokens = tokenizer.tokenize();
    let mut parser = Parser::new(tokens);
    let intent = parser.parse().unwrap();

    assert_eq!(intent.operation, OperationType::Convert);
    assert_eq!(PathBuf::from(intent.input_path), PathBuf::from("video.mp4"));
    assert_eq!(PathBuf::from(intent.output_path), PathBuf::from("video.avi"));
}

#[test]
fn test_parse_convert_with_format() {
    let mut tokenizer = Tokenizer::new("convert video.mp4 to .avi");
    let tokens = tokenizer.tokenize();
    let mut parser = Parser::new(tokens);
    let intent = parser.parse().unwrap();

    assert_eq!(intent.operation, OperationType::Convert);
    assert_eq!(PathBuf::from(intent.input_path), PathBuf::from("video.mp4"));
    assert_eq!(PathBuf::from(intent.output_path), PathBuf::from("video.avi"));
}
