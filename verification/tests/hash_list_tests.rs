use launcher::updater::github::parse_hashes;
use std::collections::HashMap;

fn as_map<'a>(entries: Vec<(&'a str, &'a str)>) -> HashMap<&'a str, &'a str> {
    let n = entries.len();
    let map: HashMap<&str, &str> = entries.into_iter().collect();
    assert_eq!(map.len(), n, "file names must be unique");
    map
}

#[test]
fn parse_hashes_reads_hash_then_file_name() {
    let map = as_map(parse_hashes("abc123 launcher.exe\ndef456  data/file.bin\n"));
    assert_eq!(map.len(), 2);
    assert_eq!(map["launcher.exe"], "abc123");
    assert_eq!(map["data/file.bin"], "def456");
}

#[test]
fn parse_hashes_later_line_wins() {
    let map = as_map(parse_hashes("aaa f.txt\nbbb g.txt\nccc f.txt"));
    assert_eq!(map.len(), 2);
    assert_eq!(map["f.txt"], "ccc");
    assert_eq!(map["g.txt"], "bbb");
}

#[test]
fn parse_hashes_skips_lines_without_white_space() {
    let map = as_map(parse_hashes("nohash\n\naaa x\n"));
    assert_eq!(map.len(), 1);
    assert_eq!(map["x"], "aaa");
}

#[test]
fn parse_hashes_handles_crlf_and_tabs() {
    let map = as_map(parse_hashes("h1\tfile one\r\nh2 \t file two\r\n"));
    assert_eq!(map["file one"], "h1");
    assert_eq!(map["file two"], "h2");
}

#[test]
fn parse_hashes_keeps_lone_carriage_return_on_last_line() {
    let map = as_map(parse_hashes("h1 f\r"));
    assert_eq!(map["f\r"], "h1");
}

#[test]
fn parse_hashes_unicode_white_space_separates() {
    let map = as_map(parse_hashes("h1\u{3000}f\u{e9}"));
    assert_eq!(map["f\u{e9}"], "h1");
}

#[test]
fn parse_hashes_of_empty_text_is_empty() {
    assert!(parse_hashes("").is_empty());
    assert!(parse_hashes("\n\n").is_empty());
}

#[test]
fn parse_hashes_leading_space_gives_empty_hash() {
    let map = as_map(parse_hashes(" file"));
    assert_eq!(map["file"], "");
}

#[test]
fn hash_list_concat_law_example() {
    let first = "a1 one\nb1 two\n";
    let second = "a2 one\nc2 three";
    let joined = format!("{first}{second}");
    let whole = as_map(parse_hashes(&joined));
    let mut expected = as_map(parse_hashes(first));
    for (k, v) in as_map(parse_hashes(second)) {
        expected.insert(k, v);
    }
    assert_eq!(whole, expected);
}

#[test]
fn hash_line_round_trip_example() {
    let map = as_map(parse_hashes("deadbeef \t name with spaces.txt\n"));
    assert_eq!(map.len(), 1);
    assert_eq!(map["name with spaces.txt"], "deadbeef");
}

#[test]
fn hash_list_shape_example() {
    let text = "h1 \t a\n\u{a0}x\n  lead\nh2 b c\nplain\n";
    let entries = parse_hashes(text);
    assert!(entries.len() <= text.lines().count());
    for (file, hash) in &entries {
        assert!(!hash.chars().any(char::is_whitespace));
        assert!(!file.starts_with(char::is_whitespace));
        assert!(text.contains(file) && text.contains(hash));
    }
    let map = as_map(entries);
    assert_eq!(map["a"], "h1");
    assert_eq!(map["x"], "");
    assert_eq!(map["lead"], "");
    assert_eq!(map["b c"], "h2");
}
