use pol::engine::{get_help_text, Calculator, FloatOp};
use pol::error::CalcError;
use pol::parser::Op;
use pol::session::{handle_mode, process_line, DisplayMode, Notice};

fn eval(op: FloatOp) -> u64 {
    match op {
        FloatOp::Literal(text) => text.parse::<f64>().expect("a float literal").to_bits(),
        FloatOp::Binary(op, a, b) => {
            let (a, b) = (f64::from_bits(a), f64::from_bits(b));
            let r = match op {
                Op::Add => a + b,
                Op::Sub => a - b,
                Op::Mul => a * b,
                Op::Div => a / b,
                Op::Pow => a.powf(b),
                Op::Mod => a % b,
            };
            r.to_bits()
        }
        FloatOp::SquareRoot(a) => f64::from_bits(a).sqrt().to_bits(),
    }
}

fn stack(calc: &Calculator) -> Vec<f64> {
    calc.stack().iter().map(|b| f64::from_bits(*b)).collect()
}

#[test]
fn default_mode_is_horizontal() {
    assert_eq!(DisplayMode::default(), DisplayMode::Horizontal);
}

#[test]
fn mode_names() {
    assert_eq!(DisplayMode::Horizontal.name(), "horizontal");
    assert_eq!(DisplayMode::Vertical.name(), "vertical");
}

#[test]
fn handle_mode_switches_and_queries() {
    let mut mode = DisplayMode::Horizontal;
    assert_eq!(handle_mode(Some("vertical".to_string()), &mut mode), None);
    assert_eq!(mode, DisplayMode::Vertical);
    assert_eq!(
        handle_mode(None, &mut mode),
        Some(Notice::CurrentMode(DisplayMode::Vertical))
    );
    assert_eq!(handle_mode(Some("horizontal".to_string()), &mut mode), None);
    assert_eq!(mode, DisplayMode::Horizontal);
}

#[test]
fn handle_mode_rejects_unknown_mode() {
    let mut mode = DisplayMode::Vertical;
    assert_eq!(
        handle_mode(Some("foo".to_string()), &mut mode),
        Some(Notice::Error(CalcError::InvalidDisplayMode("foo".to_string())))
    );
    assert_eq!(mode, DisplayMode::Vertical);
}

#[test]
fn session_mode_does_not_affect_stack_or_undo() {
    let mut calc = Calculator::new();
    let mut mode = DisplayMode::Horizontal;
    process_line("1 2", &mut calc, &mut mode, &eval);
    process_line("3", &mut calc, &mut mode, &eval);
    let report = process_line("mode vertical", &mut calc, &mut mode, &eval);
    assert_eq!(report.outcome, Ok(false));
    assert!(report.notices.is_empty());
    assert_eq!(mode, DisplayMode::Vertical);
    process_line("undo", &mut calc, &mut mode, &eval);
    assert_eq!(stack(&calc), vec![1.0, 2.0]);
    assert_eq!(mode, DisplayMode::Vertical);
}

#[test]
fn session_reports_mode_notices_in_order() {
    let mut calc = Calculator::new();
    let mut mode = DisplayMode::Horizontal;
    let report = process_line("mode mode foo 5 mode", &mut calc, &mut mode, &eval);
    // `mode mode` takes `mode` as its argument; `foo` is then an unknown token.
    assert_eq!(
        report.outcome,
        Err(CalcError::UnrecognizedToken("foo".to_string()))
    );
    assert_eq!(
        report.notices,
        vec![Notice::Error(CalcError::InvalidDisplayMode("mode".to_string()))]
    );
    assert!(stack(&calc).is_empty());
}

#[test]
fn session_help_is_shown_after_a_complete_line() {
    let mut calc = Calculator::new();
    let mut mode = DisplayMode::Horizontal;
    let report = process_line("help 1 mode", &mut calc, &mut mode, &eval);
    assert_eq!(report.outcome, Ok(false));
    assert!(report.show_help);
    assert_eq!(
        report.notices,
        vec![Notice::CurrentMode(DisplayMode::Horizontal)]
    );
    assert_eq!(stack(&calc), vec![1.0]);
}

#[test]
fn session_help_is_not_shown_after_quit_or_error() {
    let mut calc = Calculator::new();
    let mut mode = DisplayMode::Horizontal;
    let report = process_line("help quit", &mut calc, &mut mode, &eval);
    assert_eq!(report.outcome, Ok(true));
    assert!(!report.show_help);
    let report = process_line("help +", &mut calc, &mut mode, &eval);
    assert!(report.outcome.is_err());
    assert!(!report.show_help);
}

#[test]
fn session_complex_expression() {
    let mut calc = Calculator::new();
    let mut mode = DisplayMode::Horizontal;
    let report = process_line(
        "15 7 1 1 + - / 3 * 2 1 1 + + -",
        &mut calc,
        &mut mode,
        &eval,
    );
    assert_eq!(report.outcome, Ok(false));
    assert_eq!(stack(&calc), vec![5.0]);
}

#[test]
fn session_stops_at_first_error_keeping_earlier_tokens() {
    let mut calc = Calculator::new();
    let mut mode = DisplayMode::Horizontal;
    let report = process_line("3 foo 4 +", &mut calc, &mut mode, &eval);
    assert_eq!(
        report.outcome,
        Err(CalcError::UnrecognizedToken("foo".to_string()))
    );
    assert_eq!(stack(&calc), vec![3.0]);
}

#[test]
fn help_text_describes_the_calculator() {
    let help = get_help_text();
    assert!(help.starts_with("Usage: pol [OPTIONS]"));
    for word in ["RPN", "clear", "pop", "quit", "undo", "sqrt", "horizontal", "vertical"] {
        assert!(help.contains(word), "missing {word}");
    }
}

#[test]
fn session_agrees_with_calculator_on_the_stack() {
    for text in ["1 2 + mode vertical 3 help *", "4 mode 2 sqrt", "7 r- mode foo undo 1", "2 0 / 5"] {
        let mut plain = Calculator::new();
        let plain_outcome = plain.process_line(text, &eval);
        let mut calc = Calculator::new();
        let mut mode = DisplayMode::Horizontal;
        let report = process_line(text, &mut calc, &mut mode, &eval);
        assert_eq!(report.outcome, plain_outcome, "{text}");
        assert_eq!(stack(&calc), stack(&plain), "{text}");
    }
}
