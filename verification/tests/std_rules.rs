use ff::executor::runner::split_command;
use ff::file_utils::{is_supported_extension, is_supported_format, move_to_directory, replace_extension};
use ff::utils::text::trim;
use std::path::Path;

fn white_space(c: char) -> bool {
    matches!(
        c,
        ' ' | '\t'..='\r'
            | '\u{85}'
            | '\u{a0}'
            | '\u{1680}'
            | '\u{2000}'..='\u{200a}'
            | '\u{2028}'
            | '\u{2029}'
            | '\u{202f}'
            | '\u{205f}'
            | '\u{3000}'
    )
}

#[test]
fn white_space_is_the_listed_characters() {
    let mut count = 0;
    for c in '\0'..=char::MAX {
        assert_eq!(c.is_whitespace(), white_space(c), "{:?}", c);
        if white_space(c) {
            count += 1;
        }
    }
    assert_eq!(count, 25);
}

#[test]
fn listed_characters_separate_and_are_trimmed() {
    for c in '\0'..=char::MAX {
        let text = format!("a{}b", c);
        if white_space(c) {
            assert_eq!(split_command(&text), vec!["a", "b"], "{:?}", c);
            assert_eq!(trim(&format!("{}a{}", c, c)), "a", "{:?}", c);
        } else if c < '\u{3100}' {
            assert_eq!(split_command(&text), vec![text.clone()], "{:?}", c);
            assert_eq!(trim(&text[1..]), &text[1..], "{:?}", c);
        }
    }
}

fn names() -> Vec<String> {
    let alphabet = ['a', 'Z', '7', '_', '-', '~', '.'];
    let mut names = Vec::new();
    let mut last: Vec<String> = vec![String::new()];
    for _ in 0..3 {
        let mut next = Vec::new();
        for name in &last {
            for c in alphabet {
                let longer = format!("{}{}", name, c);
                if !longer.starts_with('.') {
                    next.push(longer);
                }
            }
        }
        names.extend(next.iter().cloned());
        last = next;
    }
    names
}

fn plain_paths() -> Vec<String> {
    let names = names();
    let few: Vec<&String> = names.iter().step_by(17).collect();
    let mut paths = Vec::new();
    for name in &names {
        paths.push(name.clone());
        paths.push(format!("/{}", name));
        for directory in &few {
            paths.push(format!("{}/{}", directory, name));
            paths.push(format!("/{}/{}", directory, name));
            paths.push(format!("/tmp/{}/{}", directory, name));
            paths.push(format!("x.y/{}/{}", directory, name));
        }
    }
    paths
}

fn file_part(path: &str) -> &str {
    match path.rfind('/') {
        Some(at) => &path[at + 1..],
        None => path,
    }
}

fn directory_part(path: &str) -> &str {
    match path.rfind('/') {
        Some(0) => &path[..1],
        Some(at) => &path[..at],
        None => "",
    }
}

#[test]
fn parts_of_plain_paths_are_as_stated() {
    let paths = plain_paths();
    assert!(paths.len() > 10000);
    for text in &paths {
        let path = Path::new(text);
        let name = file_part(text);
        let (stem, extension) = match name.rfind('.') {
            Some(at) => (&name[..at], Some(&name[at + 1..])),
            None => (name, None),
        };
        assert_eq!(path.file_name().map(|n| n.to_str().unwrap()), Some(name), "{}", text);
        assert_eq!(path.extension().map(|e| e.to_str().unwrap()), extension, "{}", text);
        assert_eq!(path.file_stem().map(|s| s.to_str().unwrap()), Some(stem), "{}", text);
        assert_eq!(path.parent().map(|p| p.to_str().unwrap()), Some(directory_part(text)), "{}", text);
    }
}

#[test]
fn library_agrees_on_plain_paths() {
    for text in plain_paths().iter().step_by(7) {
        let name = file_part(text);
        let (stem, extension) = match name.rfind('.') {
            Some(at) => (&name[..at], Some(&name[at + 1..])),
            None => (name, None),
        };
        let directory = directory_part(text);
        let replaced = if directory.is_empty() {
            format!("{}.new", stem)
        } else {
            format!("{}/{}.new", directory, stem)
        };
        assert_eq!(replace_extension(text, ".new"), Some(replaced), "{}", text);
        let supported = match extension {
            Some(extension) => is_supported_extension(extension),
            None => false,
        };
        assert_eq!(is_supported_format(text), supported, "{}", text);
        assert_eq!(move_to_directory(text, ""), Some(name.to_string()), "{}", text);
    }
}

#[test]
fn lower_case_of_ascii_is_as_stated() {
    for c in '\0'..='\u{7f}' {
        let lowered = if c.is_ascii_uppercase() { ((c as u8) + 32) as char } else { c };
        assert_eq!(c.to_string().to_lowercase(), lowered.to_string());
        let text = format!("a{}Z{}", c, c);
        let expected: String = text
            .chars()
            .map(|c| if ('A'..='Z').contains(&c) { ((c as u8) + 32) as char } else { c })
            .collect();
        assert_eq!(ff::utils::text::to_lowercase(&text), expected);
    }
}
