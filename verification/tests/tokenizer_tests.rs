use ff::grammar::tokenizer::{Token, Tokenizer};

#[test]
fn test_tokenize_simple_command() {
    let mut tokenizer = Tokenizer::new("convert video.mp4 to video.avi");
    let tokens = tokenizer.tokenize();

    assert_eq!(tokens, vec![
        Token::Word("convert".to_string()),
        Token::Path("video.mp4".to_string()),
        Token::Word("to".to_string()),
        Token::Path("video.avi".to_string()),
    ]);
}

#[test]
fn test_tokenize_with_format() {
    let mut tokenizer = Tokenizer::new("convert video to .avi");
    let tokens = tokenizer.tokenize();

    assert_eq!(tokens, vec![
        Token::Word("convert".to_string()),
        Token::Word("video".to_string()),
        Token::Word("to".to_string()),
        Token::Format(".avi".to_string()),
    ]);
}
