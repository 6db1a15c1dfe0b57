use snippit::errors::{HeaderFault, SnippitError};
use snippit::header::{lines, make_snippits, parse_line, HeaderLine};

fn fault_of(header: &str) -> HeaderFault {
    match make_snippits(header) {
        Err(SnippitError::Regex(e)) => e.fault,
        _ => panic!("a header fault was due"),
    }
}

fn value_of(header: &str, key: &str) -> Option<String> {
    make_snippits(header).ok().unwrap().get(key).cloned()
}

#[test]
fn title_line_gives_key_and_value() {
    let vars = make_snippits("title: My Page").ok().unwrap();
    assert_eq!(vars.len(), 1);
    assert_eq!(vars.get("title").map(|v| v.as_str()), Some("My Page"));
}

#[test]
fn line_without_colon_misses_its_key() {
    assert_eq!(fault_of("badline"), HeaderFault::MissingKey);
}

#[test]
fn line_without_space_misses_its_value() {
    assert_eq!(fault_of("key:"), HeaderFault::MissingValue);
}

#[test]
fn blank_line_misses_its_key() {
    assert_eq!(fault_of("a: 1\n\nb: 2\n"), HeaderFault::MissingKey);
    assert_eq!(fault_of("   "), HeaderFault::MissingKey);
}

#[test]
fn first_faulty_line_decides() {
    assert_eq!(fault_of("a: 1\nkey:\nbadline\n"), HeaderFault::MissingValue);
    assert_eq!(fault_of("badline\nkey:\n"), HeaderFault::MissingKey);
}

#[test]
fn space_before_the_colon_does_not_count() {
    assert_eq!(fault_of("my key:value"), HeaderFault::MissingValue);
    assert_eq!(value_of("my key: value", "my key"), Some("value".to_string()));
}

#[test]
fn value_starts_after_the_first_space_behind_the_colon() {
    assert_eq!(value_of("key:value here", "key"), Some("here".to_string()));
    assert_eq!(value_of("key: ", "key"), Some(String::new()));
    assert_eq!(value_of("key:  two", "key"), Some(" two".to_string()));
}

#[test]
fn key_ends_at_the_first_colon() {
    let vars = make_snippits("url: http://example.com/a b").ok().unwrap();
    assert_eq!(vars.len(), 1);
    assert_eq!(vars.get("url").map(|v| v.as_str()), Some("http://example.com/a b"));
}

#[test]
fn nothing_is_trimmed() {
    let vars = make_snippits("  name : Jane  ").ok().unwrap();
    assert_eq!(vars.get("  name ").map(|v| v.as_str()), Some("Jane  "));
    assert!(vars.get("name").is_none());
}

#[test]
fn later_line_overwrites_and_keeps_the_place() {
    let vars = make_snippits("a: 1\nb: 2\na: 3\n").ok().unwrap();
    assert_eq!(vars.len(), 2);
    assert_eq!(vars.key_at(0).as_str(), "a");
    assert_eq!(vars.value_at(0).as_str(), "3");
    assert_eq!(vars.key_at(1).as_str(), "b");
    assert_eq!(vars.value_at(1).as_str(), "2");
}

#[test]
fn sentinel_lines_define_nothing() {
    let vars = make_snippits("author: Jane\n******\n").ok().unwrap();
    assert_eq!(vars.len(), 1);
    assert_eq!(vars.get("author").map(|v| v.as_str()), Some("Jane"));
    let vars = make_snippits("x: ******\n** ****** **\ny: 1").ok().unwrap();
    assert_eq!(vars.len(), 1);
    assert_eq!(vars.get("y").map(|v| v.as_str()), Some("1"));
}

#[test]
fn five_asterisks_are_no_sentinel() {
    assert_eq!(fault_of("*****\n"), HeaderFault::MissingKey);
}

#[test]
fn empty_header_has_no_variables() {
    assert!(make_snippits("").ok().unwrap().is_empty());
}

#[test]
fn reading_twice_gives_the_same() {
    let header = "title: My Page\nauthor: Jane\ntitle: Other\n******\n";
    let first = make_snippits(header).ok().unwrap();
    let second = make_snippits(header).ok().unwrap();
    assert_eq!(first.len(), second.len());
    for i in 0..first.len() {
        assert_eq!(first.key_at(i), second.key_at(i));
        assert_eq!(first.value_at(i), second.value_at(i));
    }
    assert_eq!(fault_of("badline"), fault_of("badline"));
}

#[test]
fn lines_end_at_line_feeds() {
    assert_eq!(lines("a\nb\n"), vec!["a".to_string(), "b".to_string()]);
    assert_eq!(lines("a\nb"), vec!["a".to_string(), "b".to_string()]);
    assert_eq!(lines("a\r\nb\r\n"), vec!["a".to_string(), "b".to_string()]);
    assert_eq!(lines("a\n\nb"), vec!["a".to_string(), String::new(), "b".to_string()]);
    assert_eq!(lines("\n"), vec![String::new()]);
    assert_eq!(lines("a\rb\r"), vec!["a\rb\r".to_string()]);
    assert_eq!(lines("a\r\r\n"), vec!["a\r".to_string()]);
    assert!(lines("").is_empty());
}

#[test]
fn lines_agree_with_the_standard_library() {
    let samples = ["", "\n", "a", "a\n", "a\r\n\r\nb", "x: 1\r\ny: 2\n\n", "\r", "é: ü\r\n******"];
    for s in samples {
        let expected: Vec<String> = s.lines().map(|l| l.to_string()).collect();
        assert_eq!(lines(s), expected);
    }
}

#[test]
fn carriage_return_before_line_feed_is_no_part_of_the_value() {
    assert_eq!(value_of("a: 1\r\nb: 2\r\n", "a"), Some("1".to_string()));
}

#[test]
fn parse_line_tells_the_kinds_apart() {
    assert!(matches!(parse_line("--- ****** ---"), Ok(HeaderLine::Sentinel)));
    match parse_line("k: v") {
        Ok(HeaderLine::Variable { key, value }) => {
            assert_eq!(key, "k");
            assert_eq!(value, "v");
        }
        _ => panic!("a variable was due"),
    }
    assert_eq!(parse_line("k").err().unwrap().fault, HeaderFault::MissingKey);
    assert_eq!(parse_line("k:v").err().unwrap().fault, HeaderFault::MissingValue);
}

#[test]
fn characters_are_counted_not_bytes() {
    let vars = make_snippits("décor: über größe").ok().unwrap();
    assert_eq!(vars.get("décor").map(|v| v.as_str()), Some("über größe"));
}
