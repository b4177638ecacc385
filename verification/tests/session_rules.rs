use ff::grammar::parser::ParseError;
use ff::session::{interpret_line, translate, LineAction, TranslationError};

#[test]
fn quit_and_exit_end_the_session() {
    for line in ["quit", "exit", "QUIT\n", "  Exit  \r\n", "\teXiT"] {
        assert!(matches!(interpret_line(line), LineAction::Quit));
    }
}

#[test]
fn blank_lines_are_passed_over() {
    for line in ["", "\n", "   \r\n", "\t", "\u{a0}"] {
        assert!(matches!(interpret_line(line), LineAction::Skip));
    }
}

#[test]
fn other_lines_are_phrases() {
    for (line, phrase) in [
        ("convert a.mp4 to b.avi\n", "convert a.mp4 to b.avi"),
        ("  quit now \n", "quit now"),
        ("exit.", "exit."),
        ("q", "q"),
    ] {
        match interpret_line(line) {
            LineAction::Run(text) => assert_eq!(text, phrase),
            other => panic!("expected a phrase, got {:?}", other),
        }
    }
}

#[test]
fn phrase_is_translated() {
    assert_eq!(
        translate("convert video.mp4 to video.avi", None).unwrap(),
        "ffmpeg -i \"video.mp4\" \"video.avi\""
    );
    assert_eq!(
        translate("Extract /music/Song.FLAC to .MP3", None).unwrap(),
        "ffmpeg -i \"/music/Song.FLAC\" -q:a 0 -map a \"/music/Song.mp3\""
    );
    assert_eq!(
        translate("resize a.mp4 to b.mp4", None).unwrap(),
        "ffmpeg -i \"a.mp4\" -vf scale=1920:1080 \"b.mp4\""
    );
    assert_eq!(
        translate("transcode a.mp4 to b.mkv", None).unwrap(),
        "ffmpeg -i \"a.mp4\" -c:v libx264 -c:a aac \"b.mkv\""
    );
}

#[test]
fn output_goes_to_the_directory_asked_for() {
    assert_eq!(
        translate("convert /in/video.mp4 to .avi", Some("/out")).unwrap(),
        "ffmpeg -i \"/in/video.mp4\" \"/out/video.avi\""
    );
    assert_eq!(
        translate("convert video.mp4 to video.avi", Some("out/")).unwrap(),
        "ffmpeg -i \"video.mp4\" \"out/video.avi\""
    );
}

#[test]
fn phrase_that_is_no_command_is_reported() {
    match translate("resize video.mp4", None) {
        Err(TranslationError::Parse(ParseError::MissingToken(text))) => assert_eq!(text, "to"),
        other => panic!("expected a parse error, got {:?}", other),
    }
    let error = translate("convert video.mp4 to video.txt", Some("out")).unwrap_err();
    assert_eq!(error.message(), "Unsupported format: video.txt");
}

#[test]
fn output_without_file_name_cannot_be_moved() {
    assert_eq!(translate("convert a.mp4 to /", None).unwrap(), "ffmpeg -i \"a.mp4\" \"/\"");
    let error = translate("convert a.mp4 to /", Some("out")).unwrap_err();
    assert!(matches!(error, TranslationError::InvalidOutputPath));
    assert_eq!(error.message(), "Invalid output path");
}

#[test]
fn same_phrase_gives_same_command() {
    for phrase in ["convert video.mp4 to .avi", "convert", "extract a.wav to b.mp3"] {
        let first = translate(phrase, Some("out"));
        let second = translate(phrase, Some("out"));
        assert_eq!(format!("{:?}", first), format!("{:?}", second));
    }
}
