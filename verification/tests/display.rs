use pol::display::{format_stack, format_stack_horizontal, format_stack_vertical};
use pol::session::DisplayMode;

/// The text of one value, as the calculator shows it.
fn format_value(v: f64) -> String {
    if v.fract() == 0.0 && v.is_finite() {
        format!("{v:.0}")
    } else {
        format!("{v}")
    }
}

fn texts(stack: &[f64]) -> Vec<String> {
    stack.iter().map(|&v| format_value(v)).collect()
}

#[test]
fn horizontal_multi_element() {
    assert_eq!(format_stack_horizontal(&texts(&[1.0, 2.0, 3.0])), "[1 2 3]");
}

#[test]
fn horizontal_single() {
    assert_eq!(format_stack_horizontal(&texts(&[42.0])), "[42]");
}

#[test]
fn horizontal_empty() {
    assert_eq!(format_stack_horizontal(&texts(&[])), "[]");
}

#[test]
fn horizontal_float() {
    assert_eq!(format_stack_horizontal(&texts(&[1.5, 2.0])), "[1.5 2]");
}

#[test]
fn vertical_multi_element() {
    assert_eq!(
        format_stack_vertical(&texts(&[1.0, 2.0, 3.0])),
        "3: 1\n2: 2\n1: 3"
    );
}

#[test]
fn vertical_single() {
    assert_eq!(format_stack_vertical(&texts(&[42.0])), "1: 42");
}

#[test]
fn vertical_empty() {
    assert_eq!(format_stack_vertical(&texts(&[])), "");
}

#[test]
fn vertical_float() {
    assert_eq!(format_stack_vertical(&texts(&[1.5, 2.0])), "2: 1.5\n1: 2");
}

#[test]
fn format_stack_shows_top_first() {
    let values = texts(&[1.0, 2.0]);
    // The stack is shown top first.
    assert_eq!(format_stack(&values, DisplayMode::Horizontal), "[2 1]");
    assert_eq!(format_stack(&values, DisplayMode::Vertical), "2. 2\n1. 1");
}

#[test]
fn vertical_depths_beyond_nine() {
    let values: Vec<String> = (1..=11).map(|i| i.to_string()).collect();
    let text = format_stack_vertical(&values);
    assert!(text.starts_with("11: 1\n10: 2\n9: 3"));
    assert!(text.ends_with("1: 11"));
}

#[test]
fn format_stack_of_empty_stack() {
    assert_eq!(format_stack(&texts(&[]), DisplayMode::Horizontal), "[]");
    assert_eq!(format_stack(&texts(&[]), DisplayMode::Vertical), "");
}
