use pol::display::format_stack;
use pol::engine::{Calculator, FloatOp};
use pol::parser::Op;
use pol::session::{process_line, DisplayMode, Notice};

fn eval(op: FloatOp) -> u64 {
    match op {
        FloatOp::Literal(text) => text.parse::<f64>().expect("a float literal").to_bits(),
        FloatOp::Binary(op, a, b) => {
            let (a, b) = (f64::from_bits(a), f64::from_bits(b));
            let r = match op {
                Op::Add => a + b,
                Op::Sub => a - b,
                Op::Mul => a * b,
                Op::Div => a / b,
                Op::Pow => a.powf(b),
                Op::Mod => a % b,
            };
            r.to_bits()
        }
        FloatOp::SquareRoot(a) => f64::from_bits(a).sqrt().to_bits(),
    }
}

fn format_value(v: f64) -> String {
    if v.fract() == 0.0 && v.is_finite() {
        format!("{v:.0}")
    } else {
        format!("{v}")
    }
}

/// What pipe mode prints for `input`: (standard output, error output).
fn run_pipe(input: &str) -> (String, String) {
    let mut calc = Calculator::new();
    let mut mode = DisplayMode::default();
    let (mut out, mut err) = (String::new(), String::new());
    for line in input.lines() {
        let report = process_line(line, &mut calc, &mut mode, &eval);
        for notice in &report.notices {
            match notice {
                Notice::CurrentMode(m) => out.push_str(&format!("{}\n", m.name())),
                Notice::Error(e) => err.push_str(&format!("{}\n", e.message())),
            }
        }
        match report.outcome {
            Ok(true) => return (out, err),
            Ok(false) => {}
            Err(e) => err.push_str(&format!("{}\n", e.message())),
        }
    }
    let values: Vec<String> = calc
        .stack()
        .iter()
        .map(|&b| format_value(f64::from_bits(b)))
        .collect();
    out.push_str(&format_stack(&values, mode));
    out.push('\n');
    (out, err)
}

#[test]
fn piped_single_expression() {
    assert_eq!(run_pipe("3 4 +\n").0.trim(), "[7]");
}

#[test]
fn piped_multi_line() {
    assert_eq!(run_pipe("3\n4\n+\n").0.trim(), "[7]");
}

#[test]
fn error_output_on_stderr() {
    let (out, err) = run_pipe("+\n");
    assert!(err.contains("stack underflow"));
    assert_eq!(out.trim(), "[]");
}

#[test]
fn quit_command() {
    assert!(run_pipe("3 4 + quit\n").0.trim().is_empty());
}

#[test]
fn complex_expression() {
    assert_eq!(run_pipe("15 7 1 1 + - / 3 * 2 1 1 + + -\n").0.trim(), "[5]");
}

#[test]
fn unrecognized_token_error() {
    assert!(run_pipe("3 foo +\n").1.contains("unrecognized token 'foo'"));
}

#[test]
fn division_by_zero_error() {
    assert!(run_pipe("10 0 /\n").1.contains("division by zero"));
}

#[test]
fn floating_point_display() {
    assert_eq!(run_pipe("3.14\n").0.trim(), "[3.14]");
}

#[test]
fn clear_command() {
    assert_eq!(run_pipe("1 2 3 clear 42\n").0.trim(), "[42]");
}

#[test]
fn undo_in_pipe_mode() {
    assert_eq!(run_pipe("3 4 + undo\n").0.trim(), "[4 3]");
}

#[test]
fn undo_with_no_history_prints_error() {
    assert!(run_pipe("undo\n").1.contains("nothing to undo"));
}

#[test]
fn rotate_left_in_pipe_mode() {
    assert_eq!(run_pipe("1 2 3 r\n").0.trim(), "[1 3 2]");
}

#[test]
fn rotate_right_in_pipe_mode() {
    assert_eq!(run_pipe("1 2 3 r-\n").0.trim(), "[2 1 3]");
}

#[test]
fn rotate_with_count() {
    assert_eq!(run_pipe("1 2 3 r2\n").0.trim(), "[2 1 3]");
}

#[test]
fn rotate_and_undo() {
    assert_eq!(run_pipe("1 2 3 r undo\n").0.trim(), "[3 2 1]");
}

#[test]
fn pop_in_pipe_mode() {
    assert_eq!(run_pipe("1 2 3 pop\n").0.trim(), "[2 1]");
}

#[test]
fn pop_on_empty_stack_error() {
    assert!(run_pipe("pop\n").1.contains("stack underflow"));
}

#[test]
fn rotate_both_directions_roundtrip() {
    assert_eq!(run_pipe("1 2 3\nr\nr\nr-\nr-\n").0.trim(), "[3 2 1]");
}

#[test]
fn mode_switch_to_vertical() {
    assert_eq!(run_pipe("1 2 3\nmode vertical\n").0.trim(), "3. 3\n2. 2\n1. 1");
}

#[test]
fn mode_switch_to_horizontal() {
    assert_eq!(
        run_pipe("1 2 3\nmode vertical\nmode horizontal\n").0.trim(),
        "[3 2 1]"
    );
}

#[test]
fn mode_query_default() {
    assert!(run_pipe("mode\n").0.contains("horizontal"));
}

#[test]
fn mode_query_after_switch() {
    assert!(run_pipe("mode vertical\nmode\n").0.contains("vertical"));
}

#[test]
fn mode_invalid_argument() {
    let err = run_pipe("mode foo\n").1;
    assert!(err.contains("invalid display mode"));
    assert!(err.contains("foo"));
}

#[test]
fn mode_does_not_affect_stack() {
    assert_eq!(
        run_pipe("1 2\nmode vertical\nmode horizontal\n").0.trim(),
        "[2 1]"
    );
}

#[test]
fn mode_does_not_affect_undo() {
    assert_eq!(
        run_pipe("1 2\n3\nmode vertical\nundo\n").0.trim(),
        "2. 2\n1. 1"
    );
}

#[test]
fn integration_pow_basic() {
    assert_eq!(run_pipe("2 10 ^\n").0.trim(), "[1024]");
}

#[test]
fn integration_pow_zero_exponent() {
    assert_eq!(run_pipe("5 0 ^\n").0.trim(), "[1]");
}

#[test]
fn integration_mod_basic() {
    assert_eq!(run_pipe("10 3 %\n").0.trim(), "[1]");
}

#[test]
fn mod_by_zero_error() {
    assert!(run_pipe("10 0 %\n").1.contains("division by zero"));
}

#[test]
fn sqrt_basic() {
    assert_eq!(run_pipe("9 sqrt\n").0.trim(), "[3]");
}

#[test]
fn sqrt_negative_error() {
    assert!(run_pipe("-1 sqrt\n").1.contains("negative"));
}
