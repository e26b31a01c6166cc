use polygon_script::error::ScriptError;
use polygon_script::line::{Marker, Step};
use polygon_script::line::read_line;
use polygon_script::script::{place, read_script};

fn triangle_raw() -> &'static str {
    "a   0.0 0.0
r   4.0 0.0
r   -2.0    1.0"
}

fn written(steps: &[Step]) -> Vec<(f32, f32)> {
    steps
        .iter()
        .map(|s| (s.at.x.as_str().parse().unwrap(), s.at.y.as_str().parse().unwrap()))
        .collect()
}

fn resolved(steps: &[Step]) -> Vec<(f32, f32)> {
    let mut points: Vec<(f32, f32)> = Vec::new();
    for (step, (x, y)) in steps.iter().zip(written(steps)) {
        let point = match (step.marker, points.last()) {
            (Marker::Relative, Some(last)) => (last.0 + x, last.1 + y),
            _ => (x, y),
        };
        points.push(point);
    }
    points
}

#[test]
fn test_triangle_get_coordinates() {
    let steps = read_script(triangle_raw()).unwrap();
    assert_eq!(written(&steps), vec![(0.0, 0.0), (4.0, 0.0), (-2.0, 1.0)]);
}

#[test]
fn script_gives_one_step_for_each_line() {
    let steps = read_script("a 0.0 0.0\nr 4.0 0.0\nr -2.0 1.0").unwrap();
    let markers: Vec<Marker> = steps.iter().map(|s| s.marker).collect();
    assert_eq!(markers, vec![Marker::Absolute, Marker::Relative, Marker::Relative]);
    assert_eq!(written(&steps), vec![(0.0, 0.0), (4.0, 0.0), (-2.0, 1.0)]);
    assert_eq!(resolved(&steps), vec![(0.0, 0.0), (4.0, 0.0), (2.0, 1.0)]);
}

#[test]
fn first_bad_line_ends_the_pass() {
    assert_eq!(
        read_script("a 0 0\na 1\nx 2 2\nb"),
        Err(ScriptError::MalformedLine("a 1".to_string()))
    );
    assert_eq!(read_script("a 0 0\nx 2 2\na 1"), Err(ScriptError::UnknownMarker));
}

#[test]
fn empty_lines_are_malformed() {
    assert_eq!(read_script(""), Err(ScriptError::MalformedLine(String::new())));
    assert_eq!(read_script("a 0 0\n"), Err(ScriptError::MalformedLine(String::new())));
    assert_eq!(read_script("a 0 0\n\na 1 1"), Err(ScriptError::MalformedLine(String::new())));
}

#[test]
fn leading_relative_line_is_refused() {
    assert_eq!(read_script("r 1 1"), Err(ScriptError::LeadingRelative));
    assert_eq!(read_script("r 1 1\na 0 0\na 2 0"), Err(ScriptError::LeadingRelative));
    assert_eq!(read_script("r 1 1\nbad"), Err(ScriptError::LeadingRelative));
    assert_eq!(read_script("a 0 0\nr 1 1\nr 1 1").unwrap().len(), 3);
}

#[test]
fn blank_marker_is_absolute_in_a_script() {
    let steps = read_script("  1 1\nr 1 0\n  5 5").unwrap();
    assert_eq!(resolved(&steps), vec![(1.0, 1.0), (2.0, 1.0), (5.0, 5.0)]);
}

#[test]
fn carriage_returns_may_end_a_line() {
    let steps = read_script("a 0 0\r\nr 4 0\r\nr -2 1\r").unwrap();
    assert_eq!(resolved(&steps), vec![(0.0, 0.0), (4.0, 0.0), (2.0, 1.0)]);
    assert_eq!(steps[2].at.y.as_str(), "1");
    assert_eq!(
        read_script("a 0 0\r1"),
        Err(ScriptError::MalformedLine("a 0 0\r1".to_string()))
    );
}

#[test]
fn place_refuses_a_relative_step_at_the_start_only() {
    let relative = read_line("r 1 2").unwrap();
    let absolute = read_line("a 1 2").unwrap();
    assert_eq!(place(Ok(relative.clone()), 0), Err(ScriptError::LeadingRelative));
    assert_eq!(place(Ok(relative.clone()), 1), Ok(relative.clone()));
    assert_eq!(place(Ok(relative.clone()), usize::MAX), Ok(relative));
    assert_eq!(place(Ok(absolute.clone()), 0), Ok(absolute));
    assert_eq!(place(Err(ScriptError::UnknownMarker), 0), Err(ScriptError::UnknownMarker));
    assert_eq!(
        place(Err(ScriptError::MalformedLine("x".to_string())), 3),
        Err(ScriptError::MalformedLine("x".to_string()))
    );
}
