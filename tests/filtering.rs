use line_filter::{alternation_pattern, load_reference_lines, parse_reference_lines, LoadError, Matcher};

fn strings(items: &[&str]) -> Vec<String> {
    items.iter().map(|s| s.to_string()).collect()
}

fn run(references: &[&str], lines: &[&str], negate: bool) -> Vec<String> {
    let matcher = Matcher::new(&strings(references)).expect("matcher builds");
    matcher.filter_lines(&strings(lines), negate)
}

#[test]
fn selects_lines_containing_a_reference() {
    let out = run(&["foo", "bar"], &["foobaz", "qux", "barstool"], false);
    assert_eq!(out, strings(&["foobaz", "barstool"]));
}

#[test]
fn negate_selects_lines_containing_none() {
    let out = run(&["foo", "bar"], &["foobaz", "qux", "barstool"], true);
    assert_eq!(out, strings(&["qux"]));
}

#[test]
fn metacharacters_match_literally() {
    let out = run(&["a.c"], &["abc", "a.c"], false);
    assert_eq!(out, strings(&["a.c"]));
}

#[test]
fn dot_does_not_match_any_character() {
    let matcher = Matcher::new(&strings(&["a.b"])).unwrap();
    assert!(!matcher.matches("axb"));
    assert!(matcher.matches("xa.by"));
}

#[test]
fn every_metacharacter_is_literal() {
    let matcher = Matcher::new(&strings(&["(x*)", "[a-z]+", "^$", "\\d", "a|b", "{2}", "#&~?"])).unwrap();
    assert!(!matcher.matches("xxx"));
    assert!(!matcher.matches("hello"));
    assert!(!matcher.matches(""));
    assert!(!matcher.matches("7"));
    assert!(!matcher.matches("a"));
    assert!(!matcher.matches("b"));
    assert!(matcher.matches("say (x*) now"));
    assert!(matcher.matches("[a-z]+"));
    assert!(matcher.matches("x^$y"));
    assert!(matcher.matches("\\d"));
    assert!(matcher.matches("a|b"));
    assert!(matcher.matches("a{2}"));
    assert!(matcher.matches("#&~?"));
}

#[test]
fn empty_reference_set_matches_nothing() {
    let matcher = Matcher::new(&[]).expect("an empty set always builds");
    assert!(!matcher.matches(""));
    assert!(!matcher.matches("anything"));
    let lines = strings(&["a", "", "b"]);
    assert_eq!(matcher.filter_lines(&lines, false), Vec::<String>::new());
    assert_eq!(matcher.filter_lines(&lines, true), lines);
}

#[test]
fn empty_reference_file_matches_nothing() {
    let references = load_reference_lines(Vec::new()).unwrap();
    assert!(references.is_empty());
    let matcher = Matcher::new(&references).unwrap();
    assert!(!matcher.should_emit("x", false));
    assert!(matcher.should_emit("x", true));
}

#[test]
fn match_is_substring_containment() {
    let matcher = Matcher::new(&strings(&["needle", "pin"])).unwrap();
    assert!(matcher.matches("needle"));
    assert!(matcher.matches("haystackneedlehaystack"));
    assert!(matcher.matches("spinning"));
    assert!(!matcher.matches("needl"));
    assert!(!matcher.matches("NEEDLE"));
    assert!(!matcher.matches(""));
}

#[test]
fn unicode_lines_match_by_characters() {
    let matcher = Matcher::new(&strings(&["ü.ß"])).unwrap();
    assert!(matcher.matches("grüße ü.ß"));
    assert!(!matcher.matches("üxß"));
}

#[test]
fn should_emit_is_match_xor_negate() {
    let matcher = Matcher::new(&strings(&["foo"])).unwrap();
    assert!(matcher.should_emit("food", false));
    assert!(!matcher.should_emit("food", true));
    assert!(!matcher.should_emit("bar", false));
    assert!(matcher.should_emit("bar", true));
}

#[test]
fn filtering_twice_gives_the_same_output() {
    let references = strings(&["foo", "bar"]);
    let lines = strings(&["foobaz", "qux", "barstool", "x", "foo"]);
    let matcher = Matcher::new(&references).unwrap();
    for negate in [false, true] {
        let first = matcher.filter_lines(&lines, negate);
        let again = Matcher::new(&references).unwrap().filter_lines(&lines, negate);
        assert_eq!(first, again);
        assert_eq!(matcher.filter_lines(&first, negate), first);
    }
}

#[test]
fn output_keeps_input_order() {
    let out = run(&["b"], &["b3", "a", "b1", "c", "b2", "b1"], false);
    assert_eq!(out, strings(&["b3", "b1", "b2", "b1"]));
}

#[test]
fn negate_gives_the_complement() {
    let references = strings(&["o", "z"]);
    let lines = strings(&["one", "two", "three", "zero", "six"]);
    let matcher = Matcher::new(&references).unwrap();
    let plain = matcher.filter_lines(&lines, false);
    let negated = matcher.filter_lines(&lines, true);
    assert_eq!(plain, strings(&["one", "two", "zero"]));
    assert_eq!(negated, strings(&["three", "six"]));
    for line in &lines {
        assert_ne!(plain.contains(line), negated.contains(line));
    }
    assert_eq!(plain.len() + negated.len(), lines.len());
}

#[test]
fn duplicate_references_are_harmless() {
    let out = run(&["foo", "foo"], &["foo", "bar"], false);
    assert_eq!(out, strings(&["foo"]));
}

#[test]
fn split_drops_empty_pieces() {
    assert_eq!(parse_reference_lines("foo\nbar\n"), strings(&["foo", "bar"]));
    assert_eq!(parse_reference_lines("\n\na\n\nb"), strings(&["a", "b"]));
    assert_eq!(parse_reference_lines(""), Vec::<String>::new());
    assert_eq!(parse_reference_lines("\n\n\n"), Vec::<String>::new());
}

#[test]
fn split_keeps_carriage_returns_and_spaces() {
    assert_eq!(parse_reference_lines("a\r\n b \n"), strings(&["a\r", " b "]));
}

#[test]
fn load_decodes_and_splits() {
    let lines = load_reference_lines(b"foo\nbar\n".to_vec()).unwrap();
    assert_eq!(lines, strings(&["foo", "bar"]));
    let lines = load_reference_lines("caf\u{e9}\n".as_bytes().to_vec()).unwrap();
    assert_eq!(lines, strings(&["caf\u{e9}"]));
}

#[test]
fn load_refuses_bytes_that_are_not_text() {
    assert_eq!(load_reference_lines(vec![b'a', 0xff, b'\n']), Err(LoadError::NotText));
    assert_eq!(load_reference_lines(vec![0xc3]), Err(LoadError::NotText));
}

#[test]
fn pattern_escapes_and_joins() {
    assert_eq!(alternation_pattern(&strings(&["a.c", "b|d", "e"])), "a\\.c|b\\|d|e");
    assert_eq!(alternation_pattern(&strings(&["(x)*"])), "\\(x\\)\\*");
    assert_eq!(alternation_pattern(&strings(&["plain"])), "plain");
    assert_eq!(alternation_pattern(&[]), "");
}

#[test]
fn oversized_pattern_is_a_build_error() {
    let huge = "ab".repeat(4_000_000);
    let result = Matcher::new(&[huge]);
    let err = result.err().expect("the regex engine refuses a pattern this large");
    assert!(!err.message.is_empty());
}
