use pol::engine::{Calculator, FloatOp};
use pol::error::CalcError;
use pol::parser::{Cmd, Op, Token};

fn eval(op: FloatOp) -> u64 {
    match op {
        FloatOp::Literal(text) => text.parse::<f64>().expect("a float literal").to_bits(),
        FloatOp::Binary(op, a, b) => {
            let (a, b) = (f64::from_bits(a), f64::from_bits(b));
            let r = match op {
                Op::Add => a + b,
                Op::Sub => a - b,
                Op::Mul => a * b,
                Op::Div => a / b,
                Op::Pow => a.powf(b),
                Op::Mod => a % b,
            };
            r.to_bits()
        }
        FloatOp::SquareRoot(a) => f64::from_bits(a).sqrt().to_bits(),
    }
}

fn push(calc: &mut Calculator, v: f64) {
    calc.push(v.to_bits());
}

fn stack(calc: &Calculator) -> Vec<f64> {
    calc.stack().iter().map(|b| f64::from_bits(*b)).collect()
}

fn apply(calc: &mut Calculator, op: Op) -> Result<(), CalcError> {
    calc.apply_operator(&op, &eval)
}

fn line(calc: &mut Calculator, text: &str) -> Result<bool, CalcError> {
    calc.process_line(text, &eval)
}

fn underflow(op: &str, required: usize, available: usize) -> CalcError {
    CalcError::StackUnderflow {
        operator: op.to_string(),
        required,
        available,
    }
}

#[test]
fn push_and_inspect() {
    let mut calc = Calculator::new();
    push(&mut calc, 3.0);
    push(&mut calc, 4.0);
    assert_eq!(stack(&calc), vec![3.0, 4.0]);
}

#[test]
fn addition() {
    let mut calc = Calculator::new();
    push(&mut calc, 3.0);
    push(&mut calc, 4.0);
    apply(&mut calc, Op::Add).unwrap();
    assert_eq!(stack(&calc), vec![7.0]);
}

#[test]
fn subtraction() {
    let mut calc = Calculator::new();
    push(&mut calc, 10.0);
    push(&mut calc, 3.0);
    apply(&mut calc, Op::Sub).unwrap();
    assert_eq!(stack(&calc), vec![7.0]);
}

#[test]
fn subtraction_negative_result() {
    let mut calc = Calculator::new();
    push(&mut calc, 3.0);
    push(&mut calc, 10.0);
    apply(&mut calc, Op::Sub).unwrap();
    assert_eq!(stack(&calc), vec![-7.0]);
}

#[test]
fn multiplication() {
    let mut calc = Calculator::new();
    push(&mut calc, 3.0);
    push(&mut calc, 4.0);
    apply(&mut calc, Op::Mul).unwrap();
    assert_eq!(stack(&calc), vec![12.0]);
}

#[test]
fn division() {
    let mut calc = Calculator::new();
    push(&mut calc, 10.0);
    push(&mut calc, 2.0);
    apply(&mut calc, Op::Div).unwrap();
    assert_eq!(stack(&calc), vec![5.0]);
}

#[test]
fn division_by_zero() {
    let mut calc = Calculator::new();
    push(&mut calc, 10.0);
    push(&mut calc, 0.0);
    let err = apply(&mut calc, Op::Div).unwrap_err();
    assert_eq!(err, CalcError::DivisionByZero);
    assert_eq!(stack(&calc), vec![10.0, 0.0]);
}

#[test]
fn stack_underflow_empty() {
    let mut calc = Calculator::new();
    let err = apply(&mut calc, Op::Mul).unwrap_err();
    assert_eq!(err, underflow("*", 2, 0));
    assert!(calc.stack().is_empty());
}

#[test]
fn stack_underflow_one_element() {
    let mut calc = Calculator::new();
    push(&mut calc, 5.0);
    let err = apply(&mut calc, Op::Add).unwrap_err();
    assert_eq!(err, underflow("+", 2, 1));
    assert_eq!(stack(&calc), vec![5.0]);
}

#[test]
fn clear_stack() {
    let mut calc = Calculator::new();
    push(&mut calc, 1.0);
    push(&mut calc, 2.0);
    calc.clear();
    assert!(calc.stack().is_empty());
}

#[test]
fn process_multi_token_expression() {
    let mut calc = Calculator::new();
    line(&mut calc, "3 4 +").unwrap();
    assert_eq!(stack(&calc), vec![7.0]);
}

#[test]
fn stack_persists_across_lines() {
    let mut calc = Calculator::new();
    line(&mut calc, "3").unwrap();
    line(&mut calc, "4 +").unwrap();
    assert_eq!(stack(&calc), vec![7.0]);
}

#[test]
fn operator_preserves_rest_of_stack() {
    let mut calc = Calculator::new();
    push(&mut calc, 1.0);
    push(&mut calc, 2.0);
    push(&mut calc, 3.0);
    apply(&mut calc, Op::Add).unwrap();
    assert_eq!(stack(&calc), vec![1.0, 5.0]);
}

#[test]
fn process_line_quit() {
    let mut calc = Calculator::new();
    let quit = line(&mut calc, "quit").unwrap();
    assert!(quit);
}

#[test]
fn process_line_clear() {
    let mut calc = Calculator::new();
    push(&mut calc, 1.0);
    push(&mut calc, 2.0);
    line(&mut calc, "clear").unwrap();
    assert!(calc.stack().is_empty());
}

#[test]
fn undo_reverts_push() {
    let mut calc = Calculator::new();
    push(&mut calc, 3.0);
    push(&mut calc, 4.0);
    calc.undo().unwrap();
    assert_eq!(stack(&calc), vec![3.0]);
}

#[test]
fn undo_reverts_operator() {
    let mut calc = Calculator::new();
    push(&mut calc, 3.0);
    push(&mut calc, 4.0);
    apply(&mut calc, Op::Add).unwrap();
    calc.undo().unwrap();
    assert_eq!(stack(&calc), vec![3.0, 4.0]);
}

#[test]
fn undo_reverts_clear() {
    let mut calc = Calculator::new();
    push(&mut calc, 3.0);
    push(&mut calc, 4.0);
    calc.clear();
    calc.undo().unwrap();
    assert_eq!(stack(&calc), vec![3.0, 4.0]);
}

#[test]
fn multiple_consecutive_undos() {
    let mut calc = Calculator::new();
    line(&mut calc, "3 4 +").unwrap();
    calc.undo().unwrap(); // undo add
    calc.undo().unwrap(); // undo push 4
    assert_eq!(stack(&calc), vec![3.0]);
}

#[test]
fn undo_all_the_way_to_empty() {
    let mut calc = Calculator::new();
    push(&mut calc, 5.0);
    calc.undo().unwrap();
    assert!(calc.stack().is_empty());
}

#[test]
fn undo_on_fresh_calculator() {
    let mut calc = Calculator::new();
    let err = calc.undo().unwrap_err();
    assert_eq!(err, CalcError::NothingToUndo);
    assert!(calc.stack().is_empty());
}

#[test]
fn undo_after_exhausting_history() {
    let mut calc = Calculator::new();
    push(&mut calc, 5.0);
    calc.undo().unwrap();
    let err = calc.undo().unwrap_err();
    assert_eq!(err, CalcError::NothingToUndo);
    assert!(calc.stack().is_empty());
}

#[test]
fn undo_does_not_create_history_entry() {
    let mut calc = Calculator::new();
    push(&mut calc, 3.0);
    push(&mut calc, 4.0);
    apply(&mut calc, Op::Add).unwrap();
    calc.undo().unwrap();
    calc.undo().unwrap();
    calc.undo().unwrap();
    let err = calc.undo().unwrap_err();
    assert_eq!(err, CalcError::NothingToUndo);
}

#[test]
fn pop_from_stack_with_elements() {
    let mut calc = Calculator::new();
    line(&mut calc, "1 2 3").unwrap();
    calc.pop().unwrap();
    assert_eq!(stack(&calc), vec![1.0, 2.0]);
}

#[test]
fn pop_from_single_element_stack() {
    let mut calc = Calculator::new();
    push(&mut calc, 5.0);
    calc.pop().unwrap();
    assert!(calc.stack().is_empty());
}

#[test]
fn pop_from_empty_stack() {
    let mut calc = Calculator::new();
    let err = calc.pop().unwrap_err();
    assert_eq!(err, underflow("pop", 1, 0));
}

#[test]
fn undo_reverts_pop() {
    let mut calc = Calculator::new();
    line(&mut calc, "1 2 3").unwrap();
    calc.pop().unwrap();
    assert_eq!(stack(&calc), vec![1.0, 2.0]);
    calc.undo().unwrap();
    assert_eq!(stack(&calc), vec![1.0, 2.0, 3.0]);
}

#[test]
fn rotate_left_by_1() {
    let mut calc = Calculator::new();
    line(&mut calc, "1 2 3").unwrap();
    calc.rotate(1);
    assert_eq!(stack(&calc), vec![2.0, 3.0, 1.0]);
}

#[test]
fn rotate_left_by_2() {
    let mut calc = Calculator::new();
    line(&mut calc, "1 2 3").unwrap();
    calc.rotate(2);
    assert_eq!(stack(&calc), vec![3.0, 1.0, 2.0]);
}

#[test]
fn rotate_right_by_1() {
    let mut calc = Calculator::new();
    line(&mut calc, "1 2 3").unwrap();
    calc.rotate(-1);
    assert_eq!(stack(&calc), vec![3.0, 1.0, 2.0]);
}

#[test]
fn rotate_right_by_2() {
    let mut calc = Calculator::new();
    line(&mut calc, "1 2 3").unwrap();
    calc.rotate(-2);
    assert_eq!(stack(&calc), vec![2.0, 3.0, 1.0]);
}

#[test]
fn rotate_full_cycle() {
    let mut calc = Calculator::new();
    line(&mut calc, "1 2 3").unwrap();
    calc.rotate(1);
    calc.rotate(1);
    calc.rotate(1);
    assert_eq!(stack(&calc), vec![1.0, 2.0, 3.0]);
}

#[test]
fn rotate_empty_stack() {
    let mut calc = Calculator::new();
    calc.rotate(1);
    assert!(calc.stack().is_empty());
}

#[test]
fn rotate_single_element() {
    let mut calc = Calculator::new();
    push(&mut calc, 5.0);
    calc.rotate(1);
    assert_eq!(stack(&calc), vec![5.0]);
}

#[test]
fn rotate_zero() {
    let mut calc = Calculator::new();
    line(&mut calc, "1 2 3").unwrap();
    calc.rotate(0);
    assert_eq!(stack(&calc), vec![1.0, 2.0, 3.0]);
}

#[test]
fn rotate_mod_wrapping() {
    let mut calc = Calculator::new();
    line(&mut calc, "1 2 3").unwrap();
    calc.rotate(4); // 4 mod 3 = 1
    assert_eq!(stack(&calc), vec![2.0, 3.0, 1.0]);
}

#[test]
fn rotate_negative_mod_wrapping() {
    let mut calc = Calculator::new();
    line(&mut calc, "1 2 3").unwrap();
    calc.rotate(-4); // -4 rem_euclid 3 = 2
    assert_eq!(stack(&calc), vec![3.0, 1.0, 2.0]);
}

#[test]
fn undo_reverts_rotate() {
    let mut calc = Calculator::new();
    line(&mut calc, "1 2 3").unwrap();
    calc.rotate(1);
    assert_eq!(stack(&calc), vec![2.0, 3.0, 1.0]);
    calc.undo().unwrap();
    assert_eq!(stack(&calc), vec![1.0, 2.0, 3.0]);
}

#[test]
fn rotate_mid_expression() {
    let mut calc = Calculator::new();
    line(&mut calc, "1 2 3 r 4 +").unwrap();
    // [1,2,3] → rotate → [2,3,1] → push 4 → [2,3,1,4] → add → [2,3,5]
    assert_eq!(stack(&calc), vec![2.0, 3.0, 5.0]);
}

#[test]
fn engine_pow_basic() {
    let mut calc = Calculator::new();
    push(&mut calc, 2.0);
    push(&mut calc, 10.0);
    apply(&mut calc, Op::Pow).unwrap();
    assert_eq!(stack(&calc), vec![1024.0]);
}

#[test]
fn engine_pow_zero_exponent() {
    let mut calc = Calculator::new();
    push(&mut calc, 5.0);
    push(&mut calc, 0.0);
    apply(&mut calc, Op::Pow).unwrap();
    assert_eq!(stack(&calc), vec![1.0]);
}

#[test]
fn pow_stack_underflow() {
    let mut calc = Calculator::new();
    push(&mut calc, 5.0);
    let err = apply(&mut calc, Op::Pow).unwrap_err();
    assert_eq!(err, underflow("^", 2, 1));
}

#[test]
fn pow_undo() {
    let mut calc = Calculator::new();
    push(&mut calc, 2.0);
    push(&mut calc, 3.0);
    apply(&mut calc, Op::Pow).unwrap();
    assert_eq!(stack(&calc), vec![8.0]);
    calc.undo().unwrap();
    assert_eq!(stack(&calc), vec![2.0, 3.0]);
}

#[test]
fn engine_mod_basic() {
    let mut calc = Calculator::new();
    push(&mut calc, 10.0);
    push(&mut calc, 3.0);
    apply(&mut calc, Op::Mod).unwrap();
    assert_eq!(stack(&calc), vec![1.0]);
}

#[test]
fn mod_no_remainder() {
    let mut calc = Calculator::new();
    push(&mut calc, 9.0);
    push(&mut calc, 3.0);
    apply(&mut calc, Op::Mod).unwrap();
    assert_eq!(stack(&calc), vec![0.0]);
}

#[test]
fn mod_floating_point() {
    let mut calc = Calculator::new();
    push(&mut calc, 5.5);
    push(&mut calc, 2.0);
    apply(&mut calc, Op::Mod).unwrap();
    assert_eq!(stack(&calc), vec![1.5]);
}

#[test]
fn mod_by_zero() {
    let mut calc = Calculator::new();
    push(&mut calc, 10.0);
    push(&mut calc, 0.0);
    let err = apply(&mut calc, Op::Mod).unwrap_err();
    assert_eq!(err, CalcError::DivisionByZero);
    assert_eq!(stack(&calc), vec![10.0, 0.0]);
}

#[test]
fn mod_stack_underflow() {
    let mut calc = Calculator::new();
    push(&mut calc, 5.0);
    let err = apply(&mut calc, Op::Mod).unwrap_err();
    assert_eq!(err, underflow("%", 2, 1));
}

#[test]
fn mod_undo() {
    let mut calc = Calculator::new();
    push(&mut calc, 10.0);
    push(&mut calc, 3.0);
    apply(&mut calc, Op::Mod).unwrap();
    assert_eq!(stack(&calc), vec![1.0]);
    calc.undo().unwrap();
    assert_eq!(stack(&calc), vec![10.0, 3.0]);
}

#[test]
fn sqrt_perfect_square() {
    let mut calc = Calculator::new();
    push(&mut calc, 9.0);
    calc.sqrt(&eval).unwrap();
    assert_eq!(stack(&calc), vec![3.0]);
}

#[test]
fn sqrt_non_perfect_square() {
    let mut calc = Calculator::new();
    push(&mut calc, 2.0);
    calc.sqrt(&eval).unwrap();
    let result = stack(&calc)[0];
    assert!((result - std::f64::consts::SQRT_2).abs() < 1e-10);
}

#[test]
fn sqrt_zero() {
    let mut calc = Calculator::new();
    push(&mut calc, 0.0);
    calc.sqrt(&eval).unwrap();
    assert_eq!(stack(&calc), vec![0.0]);
}

#[test]
fn sqrt_negative_input() {
    let mut calc = Calculator::new();
    push(&mut calc, -1.0);
    let err = calc.sqrt(&eval).unwrap_err();
    assert_eq!(err, CalcError::NegativeSqrt);
    assert_eq!(stack(&calc), vec![-1.0]);
}

#[test]
fn sqrt_empty_stack() {
    let mut calc = Calculator::new();
    let err = calc.sqrt(&eval).unwrap_err();
    assert_eq!(err, underflow("sqrt", 1, 0));
}

#[test]
fn sqrt_undo() {
    let mut calc = Calculator::new();
    push(&mut calc, 16.0);
    calc.sqrt(&eval).unwrap();
    assert_eq!(stack(&calc), vec![4.0]);
    calc.undo().unwrap();
    assert_eq!(stack(&calc), vec![16.0]);
}

#[test]
fn help_does_not_modify_stack() {
    let mut calc = Calculator::new();
    push(&mut calc, 1.0);
    push(&mut calc, 2.0);
    let quit = calc.process_token(Token::Command(Cmd::Help), &eval).unwrap();
    assert!(!quit);
    assert_eq!(stack(&calc), vec![1.0, 2.0]);
}

#[test]
fn help_on_empty_stack() {
    let mut calc = Calculator::new();
    let quit = calc.process_token(Token::Command(Cmd::Help), &eval).unwrap();
    assert!(!quit);
    assert!(calc.stack().is_empty());
}
