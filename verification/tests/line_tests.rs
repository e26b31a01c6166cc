use polygon_script::error::ScriptError;
use polygon_script::line::{interpret, read_line, Marker, Step, LINE_PATTERN};

fn point_of(step: &Step) -> (f32, f32) {
    (step.at.x.as_str().parse().unwrap(), step.at.y.as_str().parse().unwrap())
}

fn groups(texts: &[Option<&str>]) -> Option<Vec<Option<String>>> {
    Some(texts.iter().map(|t| t.map(|s| s.to_string())).collect())
}

#[test]
fn test_read_line_absolute() {
    assert_eq!(point_of(&read_line("a   0.0 0.0").unwrap()), (0.0, 0.0));
}

#[test]
fn test_read_line_negative_float() {
    assert_eq!(point_of(&read_line("a   0.2 -5.6").unwrap()), (0.2, -5.6));
}

#[test]
fn test_read_line_int() {
    assert_eq!(point_of(&read_line("a   1 -2").unwrap()), (1.0, -2.0));
}

#[test]
fn test_read_line_absolute_whitespace() {
    assert_eq!(point_of(&read_line("a   0.0  0.0").unwrap()), (0.0, 0.0));
}

#[test]
#[should_panic]
fn test_invalid_line() {
    assert_eq!(point_of(&read_line("a   0.0  ").unwrap()), (0.0, 0.0));
}

#[test]
fn line_without_second_field_is_malformed() {
    assert_eq!(read_line("a 0.0  "), Err(ScriptError::MalformedLine("a 0.0  ".to_string())));
    assert_eq!(read_line("a   0.0  "), Err(ScriptError::MalformedLine("a   0.0  ".to_string())));
}

#[test]
fn malformed_lines_carry_their_text() {
    for line in ["", "a", "a 1", "a1 2", "a 1 2 3", "a 1,2", "a x y", "a - 1", "a . 1", "a 1 2x", "xa 1 2", " 1 2", "a 1.2.3 4", "a 1e3 4", "a +1 2"] {
        assert_eq!(read_line(line), Err(ScriptError::MalformedLine(line.to_string())), "{line}");
    }
}

#[test]
fn markers_select_the_reading() {
    assert_eq!(read_line("a 1 2").unwrap().marker, Marker::Absolute);
    assert_eq!(read_line("  1 2").unwrap().marker, Marker::Absolute);
    assert_eq!(read_line("r 1 2").unwrap().marker, Marker::Relative);
    assert_eq!(Marker::from_char('a'), Some(Marker::Absolute));
    assert_eq!(Marker::from_char(' '), Some(Marker::Absolute));
    assert_eq!(Marker::from_char('r'), Some(Marker::Relative));
    assert_eq!(Marker::from_char('A'), None);
}

#[test]
fn other_markers_are_unknown() {
    for line in ["x 1 2", "A 1 2", "R 1 2", "\t 1 2", "1 2 3", "é 1 2"] {
        assert_eq!(read_line(line), Err(ScriptError::UnknownMarker), "{line}");
    }
}

#[test]
fn shape_is_judged_before_the_marker() {
    assert_eq!(read_line("x 1"), Err(ScriptError::MalformedLine("x 1".to_string())));
    assert_eq!(read_line("x 1 2"), Err(ScriptError::UnknownMarker));
}

#[test]
fn fields_are_kept_as_written() {
    let step = read_line("r\t-2.0 \t 1.0 \t").unwrap();
    assert_eq!(step.marker, Marker::Relative);
    assert_eq!(step.at.x.as_str(), "-2.0");
    assert_eq!(step.at.y.as_str(), "1.0");
    let short = read_line("a .5 7.").unwrap();
    assert_eq!(point_of(&short), (0.5, 7.0));
    assert_eq!(step.clone(), step);
}

#[test]
fn the_search_reads_the_line_and_not_the_pattern() {
    let step = read_line("r 3 4").unwrap();
    assert_eq!(step.at.x.as_str(), "3");
    assert_eq!(step.at.y.as_str(), "4");
    assert_eq!(read_line(LINE_PATTERN), Err(ScriptError::MalformedLine(LINE_PATTERN.to_string())));
}

#[test]
fn pattern_is_what_the_engine_is_given() {
    let engine = regex::Regex::new(LINE_PATTERN).unwrap();
    let found = engine.captures("a 1 -2").unwrap();
    assert_eq!(found.len(), 4);
    assert_eq!(&found[1], "a");
    assert_eq!(&found[2], "1");
    assert_eq!(&found[3], "-2");
    assert!(engine.captures("a 1").is_none());
}

#[test]
fn interpret_judges_what_was_found() {
    let line = "a 1 2";
    let malformed = Err(ScriptError::MalformedLine(line.to_string()));
    assert_eq!(interpret(line, None), malformed);
    assert_eq!(interpret(line, groups(&[])), malformed);
    assert_eq!(interpret(line, groups(&[Some("a 1 2"), Some("a"), Some("1")])), malformed);
    assert_eq!(interpret(line, groups(&[Some("a 1 2"), Some("a"), Some("1"), Some("2"), Some("3")])), malformed);
    assert_eq!(interpret(line, groups(&[Some("a 1 2"), None, Some("1"), Some("2")])), malformed);
    assert_eq!(interpret(line, groups(&[Some("a 1 2"), Some("a"), None, Some("2")])), malformed);
    assert_eq!(interpret(line, groups(&[Some("a 1 2"), Some("a"), Some("1"), None])), malformed);
    assert_eq!(interpret(line, groups(&[Some("a 1 2"), Some("ab"), Some("1"), Some("2")])), malformed);
    assert_eq!(interpret(line, groups(&[Some("a 1 2"), Some(""), Some("1"), Some("2")])), malformed);
    assert_eq!(interpret(line, groups(&[Some("a 1 2"), Some("a"), Some(""), Some("2")])), malformed);
    assert_eq!(interpret(line, groups(&[Some("a 1 2"), Some("a"), Some("1"), Some("-")])), malformed);
    assert_eq!(interpret(line, groups(&[Some("a 1 2"), Some("q"), Some("1"), Some("2")])), Err(ScriptError::UnknownMarker));
    let step = interpret(line, groups(&[None, Some("r"), Some("1"), Some("2")])).unwrap();
    assert_eq!(step.marker, Marker::Relative);
    assert_eq!(point_of(&step), (1.0, 2.0));
}
