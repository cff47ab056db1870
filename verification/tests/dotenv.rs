use kival::dotenv::{eval_end_state, load, parse_value, Error, LineParser, ParseState, SubstitutionData};
use kival::env::EnvVars;

fn env(pairs: &[(&str, &str)]) -> EnvVars {
    EnvVars { vars: pairs.iter().map(|(k, v)| (k.to_string(), v.to_string())).collect() }
}

fn assigned(outcome: &kival::dotenv::LoadOutcome) -> Vec<(&str, &str)> {
    outcome.assignments.iter().map(|(k, v)| (k.as_str(), v.as_str())).collect()
}

#[test]
fn loads_variables_from_env_file() {
    let outcome = load("DOTENV_LOAD_A=hello\nDOTENV_LOAD_B=world\n", &env(&[]));
    assert!(outcome.error.is_none());
    assert_eq!(assigned(&outcome), vec![("DOTENV_LOAD_A", "hello"), ("DOTENV_LOAD_B", "world")]);
}

#[test]
fn preserves_existing_env_vars() {
    let outcome = load("DOTENV_KEEP=from_file\n", &env(&[("DOTENV_KEEP", "preset")]));
    assert!(outcome.error.is_none());
    assert!(outcome.assignments.is_empty());
}

#[test]
fn first_assignment_of_a_name_wins() {
    let outcome = load("A=1\nA=2\n", &env(&[]));
    assert_eq!(assigned(&outcome), vec![("A", "1")]);
}

#[test]
fn comments_blank_lines_export_and_bom() {
    let text = "\u{feff}# heading\n\nexport A=1\n  B = two # trailing\nexport=3\n";
    let outcome = load(text, &env(&[]));
    assert!(outcome.error.is_none());
    assert_eq!(assigned(&outcome), vec![("A", "1"), ("B", "two"), ("export", "3")]);
}

#[test]
fn quoted_values_and_escapes() {
    let text = "A='single $x'\nB=\"double\\n\\\"q\\\"\"\nC=a\\ b\n";
    let outcome = load(text, &env(&[]));
    assert!(outcome.error.is_none());
    assert_eq!(assigned(&outcome), vec![("A", "single $x"), ("B", "double\n\"q\""), ("C", "a b")]);
}

#[test]
fn substitution_prefers_the_environment_then_earlier_lines() {
    let text = "BASE=/srv\nDATA=${BASE}/data\nHOMEDIR=$HOME/x\nMISSING=[${NOPE}]\n";
    let outcome = load(text, &env(&[("HOME", "/home/u")]));
    assert!(outcome.error.is_none());
    assert_eq!(
        assigned(&outcome),
        vec![("BASE", "/srv"), ("DATA", "/srv/data"), ("HOMEDIR", "/home/u/x"), ("MISSING", "[]")]
    );
}

#[test]
fn multiline_quoted_value_spans_lines() {
    let outcome = load("A=\"one\ntwo\"\nB=3\n", &env(&[]));
    assert!(outcome.error.is_none());
    assert_eq!(assigned(&outcome), vec![("A", "one\ntwo"), ("B", "3")]);
}

#[test]
fn malformed_lines_report_their_offset() {
    let outcome = load("A=1\n1BAD=2\n", &env(&[]));
    assert_eq!(assigned(&outcome), vec![("A", "1")]);
    assert_eq!(outcome.error, Some(Error::LineParse("1BAD=2".to_string(), 0)));

    let outcome = load("KEY value\n", &env(&[]));
    assert_eq!(outcome.error, Some(Error::LineParse("KEY value".to_string(), 4)));

    let outcome = load("A=b c\n", &env(&[]));
    assert_eq!(outcome.error, Some(Error::LineParse("A=b c".to_string(), 4)));
}

#[test]
fn unterminated_quote_fails_at_the_end() {
    let outcome = load("A=\"open\n", &env(&[]));
    assert_eq!(outcome.error, Some(Error::LineParse("A=\"open\n".to_string(), 8)));
}

#[test]
fn parse_value_handles_substitution_blocks() {
    let mut data = SubstitutionData::new();
    data.insert("NAME".to_string(), Some("world".to_string()));
    let value = parse_value("hello_${NAME}!", &data, &env(&[])).expect("value parses");
    assert_eq!(value, "hello_world!");
    assert_eq!(
        parse_value("${NAME", &data, &env(&[])),
        Err(Error::LineParse("${NAME".to_string(), 5))
    );
}

#[test]
fn line_parser_reads_key_and_value() {
    let mut data = SubstitutionData::new();
    let mut parser = LineParser::new("  KEY.name_1 = value  ");
    let parsed = parser.parse_line(&mut data, &env(&[])).expect("line parses");
    assert_eq!(parsed, Some(("KEY.name_1".to_string(), "value".to_string())));
    assert_eq!(data.get(&"KEY.name_1".to_string()), Some("value".to_string()));
}

#[test]
fn end_state_tracks_quotes_and_comments() {
    assert_eq!(eval_end_state(ParseState::Complete, "A=\"open"), (6, ParseState::WeakOpen));
    assert_eq!(eval_end_state(ParseState::Complete, "A=1 # c"), (4, ParseState::Comment));
    assert_eq!(eval_end_state(ParseState::WeakOpen, "done\""), (4, ParseState::Complete));
}

#[test]
fn value_errors_report_the_line_and_its_byte_offset() {
    let mut data = SubstitutionData::new();
    let mut parser = LineParser::new("B=v w");
    assert_eq!(parser.parse_line(&mut data, &env(&[])), Err(Error::LineParse("B=v w".to_string(), 4)));
    assert!(data.entries.is_empty());

    let mut parser = LineParser::new("B = \u{e9} x");
    assert_eq!(parser.parse_line(&mut data, &env(&[])), Err(Error::LineParse("B = \u{e9} x".to_string(), 7)));

    let mut parser = LineParser::new("A='x");
    assert_eq!(parser.parse_line(&mut data, &env(&[])), Err(Error::LineParse("A='x".to_string(), 3)));
    assert!(data.entries.is_empty());
}

#[test]
fn plain_values_come_back_unchanged() {
    let mut data = SubstitutionData::new();
    data.insert("X".to_string(), Some("y".to_string()));
    for value in ["abc", "a.b-c/d:e", "caf\u{e9}#1", "=x="] {
        assert_eq!(parse_value(value, &data, &env(&[("HOME", "/h")])), Ok(value.to_string()));
    }
}
