//! The stack engine: a stack of IEEE 754 doubles with an undo history.

use vstd::prelude::*;

use crate::error::{CalcError, ErrorView};
use crate::parser::{
    parse_line, parse_text, token_result_view, token_results_view, Cmd, Op, Token, TokenView,
};

verus! {

/// The help text shown by the `help` command.
pub const HELP_TEXT: &'static str = "\
Usage: pol [OPTIONS]

An interactive RPN (Reverse Polish Notation) calculator.

Reads expressions in postfix notation. Runs as an interactive REPL when
started in a terminal, or processes piped input in batch mode.

Operators:
    +    Addition
    -    Subtraction
    *    Multiplication
    /    Division
    ^    Exponentiation (a ^ b = a raised to the power b)
    %    Modulo (remainder after division)

Commands:
    clear       Clear the stack
    help        Show this help text
    pop         Remove the top element
    quit        Exit the calculator
    undo        Undo the last operation
    r, r<N>     Rotate stack left by N (default 1)
    r-, r-<N>   Rotate stack right by N (default 1)
    sqrt        Square root of the top element

Display modes:
    mode                Show current display mode
    mode horizontal     Stack on one line (default): [1 2 3]
    mode vertical       Stack with indices:
                            3. 3
                            2. 2
                            1. 1
";

/// Whether `k` occurs in `s` as a run of consecutive characters.
pub open spec fn contains_text(s: Seq<char>, k: Seq<char>) -> bool {
    exists|i: int| 0 <= i && i + k.len() <= s.len() && #[trigger] s.subrange(i, i + k.len()) == k
}

/// The help text starts with the usage line, ends with a new line, and names
/// every word of the token language: the operators, the commands, the
/// rotations, `mode` and the two display modes.
pub proof fn law_help_text_names_every_word()
    ensures
        HELP_TEXT@.take(21) == "Usage: pol [OPTIONS]\n"@,
        HELP_TEXT@.last() == '\n',
        contains_text(HELP_TEXT@, "+"@),
        contains_text(HELP_TEXT@, "-"@),
        contains_text(HELP_TEXT@, "*"@),
        contains_text(HELP_TEXT@, "/"@),
        contains_text(HELP_TEXT@, "^"@),
        contains_text(HELP_TEXT@, "%"@),
        contains_text(HELP_TEXT@, "clear"@),
        contains_text(HELP_TEXT@, "help"@),
        contains_text(HELP_TEXT@, "pop"@),
        contains_text(HELP_TEXT@, "quit"@),
        contains_text(HELP_TEXT@, "undo"@),
        contains_text(HELP_TEXT@, "r, r<N>"@),
        contains_text(HELP_TEXT@, "r-, r-<N>"@),
        contains_text(HELP_TEXT@, "sqrt"@),
        contains_text(HELP_TEXT@, "mode"@),
        contains_text(HELP_TEXT@, "horizontal"@),
        contains_text(HELP_TEXT@, "vertical"@),
        contains_text(HELP_TEXT@, "RPN"@),
{
    reveal_strlit("\
Usage: pol [OPTIONS]

An interactive RPN (Reverse Polish Notation) calculator.

Reads expressions in postfix notation. Runs as an interactive REPL when
started in a terminal, or processes piped input in batch mode.

Operators:
    +    Addition
    -    Subtraction
    *    Multiplication
    /    Division
    ^    Exponentiation (a ^ b = a raised to the power b)
    %    Modulo (remainder after division)

Commands:
    clear       Clear the stack
    help        Show this help text
    pop         Remove the top element
    quit        Exit the calculator
    undo        Undo the last operation
    r, r<N>     Rotate stack left by N (default 1)
    r-, r-<N>   Rotate stack right by N (default 1)
    sqrt        Square root of the top element

Display modes:
    mode                Show current display mode
    mode horizontal     Stack on one line (default): [1 2 3]
    mode vertical       Stack with indices:
                            3. 3
                            2. 2
                            1. 1
");
    reveal_strlit("Usage: pol [OPTIONS]\n");
    reveal_strlit("+");
    reveal_strlit("-");
    reveal_strlit("*");
    reveal_strlit("/");
    reveal_strlit("^");
    reveal_strlit("%");
    reveal_strlit("clear");
    reveal_strlit("help");
    reveal_strlit("pop");
    reveal_strlit("quit");
    reveal_strlit("undo");
    reveal_strlit("r, r<N>");
    reveal_strlit("r-, r-<N>");
    reveal_strlit("sqrt");
    reveal_strlit("mode");
    reveal_strlit("horizontal");
    reveal_strlit("vertical");
    reveal_strlit("RPN");
    assert(HELP_TEXT@.take(21) =~= "Usage: pol [OPTIONS]\n"@);
    assert(HELP_TEXT@.subrange(231, 231int + "+"@.len()) =~= "+"@);
    assert(HELP_TEXT@.subrange(249, 249int + "-"@.len()) =~= "-"@);
    assert(HELP_TEXT@.subrange(270, 270int + "*"@.len()) =~= "*"@);
    assert(HELP_TEXT@.subrange(294, 294int + "/"@.len()) =~= "/"@);
    assert(HELP_TEXT@.subrange(312, 312int + "^"@.len()) =~= "^"@);
    assert(HELP_TEXT@.subrange(370, 370int + "%"@.len()) =~= "%"@);
    assert(HELP_TEXT@.subrange(424, 424int + "clear"@.len()) =~= "clear"@);
    assert(HELP_TEXT@.subrange(456, 456int + "help"@.len()) =~= "help"@);
    assert(HELP_TEXT@.subrange(492, 492int + "pop"@.len()) =~= "pop"@);
    assert(HELP_TEXT@.subrange(531, 531int + "quit"@.len()) =~= "quit"@);
    assert(HELP_TEXT@.subrange(567, 567int + "undo"@.len()) =~= "undo"@);
    assert(HELP_TEXT@.subrange(607, 607int + "r, r<N>"@.len()) =~= "r, r<N>"@);
    assert(HELP_TEXT@.subrange(658, 658int + "r-, r-<N>"@.len()) =~= "r-, r-<N>"@);
    assert(HELP_TEXT@.subrange(710, 710int + "sqrt"@.len()) =~= "sqrt"@);
    assert(HELP_TEXT@.subrange(773, 773int + "mode"@.len()) =~= "mode"@);
    assert(HELP_TEXT@.subrange(828, 828int + "horizontal"@.len()) =~= "horizontal"@);
    assert(HELP_TEXT@.subrange(889, 889int + "vertical"@.len()) =~= "vertical"@);
    assert(HELP_TEXT@.subrange(37, 37int + "RPN"@.len()) =~= "RPN"@);
}

/// Returns the help text.
pub fn get_help_text() -> (res: String)
    ensures
        res@ == HELP_TEXT@,
{
    String::from_str(HELP_TEXT)
}

/// Whether the double with these bits compares equal to `0.0` (it is `+0.0` or `-0.0`).
pub open spec fn is_zero_bits(x: u64) -> bool {
    x == 0 || x == 0x8000_0000_0000_0000
}

/// Whether the double with these bits compares less than `0.0`: the sign bit is
/// set, and the value is neither `-0.0` nor a NaN (negative infinity included).
pub open spec fn is_negative_bits(x: u64) -> bool {
    0x8000_0000_0000_0000 < x <= 0xFFF0_0000_0000_0000
}

/// Whether the double with bits `x` compares equal to `0.0`.
pub fn bits_are_zero(x: u64) -> (res: bool)
    ensures
        res == is_zero_bits(x),
{
    x == 0 || x == 0x8000_0000_0000_0000
}

/// Whether the double with bits `x` compares less than `0.0`.
pub fn bits_are_negative(x: u64) -> (res: bool)
    ensures
        res == is_negative_bits(x),
{
    0x8000_0000_0000_0000 < x && x <= 0xFFF0_0000_0000_0000
}

/// A floating-point computation that the engine hands to the evaluator.
/// Operands and results are the bit patterns of doubles.
pub enum FloatOp {
    /// The value of a number literal.
    Literal(String),
    /// `a op b`, where `a` was below `b` on the stack.
    Binary(Op, u64, u64),
    /// The square root of the operand.
    SquareRoot(u64),
}

/// The evaluator can be called on every computation.
pub open spec fn accepts_all<E: Fn(FloatOp) -> u64>(eval: E) -> bool {
    forall|x: FloatOp| call_requires(eval, (x,))
}

/// `r` is a result that the evaluator may return for `x`.
pub open spec fn evaluates<E: Fn(FloatOp) -> u64>(eval: E, x: FloatOp, r: u64) -> bool {
    call_ensures(eval, (x,), r)
}

/// `r` is a value that the evaluator may give for the number literal `text`.
pub open spec fn evaluates_literal<E: Fn(FloatOp) -> u64>(eval: E, text: Seq<char>, r: u64) -> bool {
    exists|s: String| s@ == text && #[trigger] evaluates(eval, FloatOp::Literal(s), r)
}

/// The model of a calculator: the stack, bottom first, and the stacks saved
/// for undo, oldest first.
pub struct CalcState {
    pub stack: Seq<u64>,
    pub history: Seq<Seq<u64>>,
}

impl CalcState {
    /// The empty calculator.
    pub open spec fn empty() -> CalcState {
        CalcState { stack: Seq::empty(), history: Seq::empty() }
    }

    /// Replaces the stack by `stack`, saving the current stack for undo.
    pub open spec fn record(self, stack: Seq<u64>) -> CalcState {
        CalcState { stack, history: self.history.push(self.stack) }
    }

    /// The state that undo restores, if there is one.
    pub open spec fn undone(self) -> Option<CalcState> {
        if self.history.len() == 0 {
            None
        } else {
            Some(CalcState { stack: self.history.last(), history: self.history.drop_last() })
        }
    }
}

/// The symbol by which an operator is named in errors.
pub open spec fn op_symbol(op: Op) -> Seq<char> {
    match op {
        Op::Add => "+"@,
        Op::Sub => "-"@,
        Op::Mul => "*"@,
        Op::Div => "/"@,
        Op::Pow => "^"@,
        Op::Mod => "%"@,
    }
}

/// The error for an operation that needs `required` operands where the stack has `available`.
pub open spec fn underflow(operator: Seq<char>, required: usize, available: usize) -> ErrorView {
    ErrorView::StackUnderflow { operator, required, available }
}

/// The result of `pop`.
pub open spec fn pop_result(m: CalcState) -> Result<CalcState, ErrorView> {
    if m.stack.len() == 0 {
        Err(underflow("pop"@, 1, 0))
    } else {
        Ok(m.record(m.stack.drop_last()))
    }
}

/// The result of `undo`.
pub open spec fn undo_result(m: CalcState) -> Result<CalcState, ErrorView> {
    match m.undone() {
        Some(p) => Ok(p),
        None => Err(ErrorView::NothingToUndo),
    }
}

/// The modulus by which a rotation count is reduced: the stack length, capped at `i32::MAX`.
pub open spec fn rotation_modulus(len: nat) -> int {
    if len <= i32::MAX {
        len as int
    } else {
        i32::MAX as int
    }
}

/// The number of places that `rotate(n)` moves the stack to the left.
pub open spec fn rotation_amount(len: nat, n: i32) -> int {
    if len <= 1 {
        0
    } else {
        n as int % rotation_modulus(len)
    }
}

/// `s` rotated left by `k` places: the first `k` elements move to the end.
pub open spec fn rotate_left(s: Seq<u64>, k: int) -> Seq<u64> {
    s.skip(k) + s.take(k)
}

/// The result of `rotate(n)`; a rotation that moves nothing is not recorded.
pub open spec fn rotated(m: CalcState, n: i32) -> CalcState {
    let k = rotation_amount(m.stack.len(), n);
    if k == 0 {
        m
    } else {
        m.record(rotate_left(m.stack, k))
    }
}

/// The error, if any, that `sqrt` reports.
pub open spec fn sqrt_error(m: CalcState) -> Option<ErrorView> {
    if m.stack.len() == 0 {
        Some(underflow("sqrt"@, 1, 0))
    } else if is_negative_bits(m.stack.last()) {
        Some(ErrorView::NegativeSqrt)
    } else {
        None
    }
}

/// A successful `sqrt` from `pre` to `post`: the top is replaced by a square
/// root that the evaluator gives for it, and the old stack is saved.
pub open spec fn sqrt_step<E: Fn(FloatOp) -> u64>(eval: E, pre: CalcState, post: CalcState) -> bool {
    &&& pre.stack.len() > 0
    &&& post.stack.len() > 0
    &&& post == pre.record(pre.stack.drop_last().push(post.stack.last()))
    &&& evaluates(eval, FloatOp::SquareRoot(pre.stack.last()), post.stack.last())
}

/// The error, if any, that `apply_operator(op)` reports.
pub open spec fn operator_error(m: CalcState, op: Op) -> Option<ErrorView> {
    if m.stack.len() < 2 {
        Some(underflow(op_symbol(op), 2, m.stack.len() as usize))
    } else if (op == Op::Div || op == Op::Mod) && is_zero_bits(m.stack.last()) {
        Some(ErrorView::DivisionByZero)
    } else {
        None
    }
}

/// A successful `apply_operator(op)` from `pre` to `post`: the top two values
/// `a` (below) and `b` are replaced by a result that the evaluator gives for
/// `a op b`, and the old stack is saved.
pub open spec fn operator_step<E: Fn(FloatOp) -> u64>(
    eval: E,
    pre: CalcState,
    op: Op,
    post: CalcState,
) -> bool {
    let n = pre.stack.len();
    &&& n >= 2
    &&& post.stack.len() > 0
    &&& post == pre.record(pre.stack.take(n - 2).push(post.stack.last()))
    &&& evaluates(
        eval,
        FloatOp::Binary(op, pre.stack[n - 2], pre.stack[n - 1]),
        post.stack.last(),
    )
}

/// The model of the outcome of processing input: `Ok(true)` when quit was
/// requested, `Ok(false)` otherwise, or the error.
pub open spec fn outcome_view(r: Result<bool, CalcError>) -> Result<bool, ErrorView> {
    match r {
        Ok(b) => Ok(b),
        Err(e) => Err(e@),
    }
}

/// Processing the token `t` takes the calculator from `pre` to `post` with outcome `res`.
pub open spec fn step<E: Fn(FloatOp) -> u64>(
    eval: E,
    pre: CalcState,
    t: TokenView,
    post: CalcState,
    res: Result<bool, ErrorView>,
) -> bool {
    match t {
        TokenView::Number(text) => {
            &&& res == Ok::<bool, ErrorView>(false)
            &&& post.stack.len() > 0
            &&& post == pre.record(pre.stack.push(post.stack.last()))
            &&& evaluates_literal(eval, text, post.stack.last())
        },
        TokenView::Operator(op) => match operator_error(pre, op) {
            Some(e) => res == Err::<bool, ErrorView>(e) && post == pre,
            None => res == Ok::<bool, ErrorView>(false) && operator_step(eval, pre, op, post),
        },
        TokenView::Command(c) => match c {
            Cmd::Clear => res == Ok::<bool, ErrorView>(false) && post == pre.record(Seq::empty()),
            Cmd::Help => res == Ok::<bool, ErrorView>(false) && post == pre,
            Cmd::Pop => match pop_result(pre) {
                Ok(m) => res == Ok::<bool, ErrorView>(false) && post == m,
                Err(e) => res == Err::<bool, ErrorView>(e) && post == pre,
            },
            Cmd::Quit => res == Ok::<bool, ErrorView>(true) && post == pre,
            Cmd::Undo => match undo_result(pre) {
                Ok(m) => res == Ok::<bool, ErrorView>(false) && post == m,
                Err(e) => res == Err::<bool, ErrorView>(e) && post == pre,
            },
            Cmd::Rotate(n) => res == Ok::<bool, ErrorView>(false) && post == rotated(pre, n),
            Cmd::Sqrt => match sqrt_error(pre) {
                Some(e) => res == Err::<bool, ErrorView>(e) && post == pre,
                None => res == Ok::<bool, ErrorView>(false) && sqrt_step(eval, pre, post),
            },
        },
        TokenView::Mode(_) => res == Ok::<bool, ErrorView>(false) && post == pre,
    }
}

/// Processing the tokens `toks` in order takes the calculator from `pre` to
/// `post` with outcome `res`: processing stops at the first error (an error
/// in place of a token included) or at `quit`, keeping what the tokens
/// before it did.
pub open spec fn run<E: Fn(FloatOp) -> u64>(
    eval: E,
    pre: CalcState,
    toks: Seq<Result<TokenView, ErrorView>>,
    post: CalcState,
    res: Result<bool, ErrorView>,
) -> bool
    decreases toks.len(),
{
    if toks.len() == 0 {
        post == pre && res == Ok::<bool, ErrorView>(false)
    } else {
        match toks[0] {
            Err(e) => post == pre && res == Err::<bool, ErrorView>(e),
            Ok(t) => exists|mid: CalcState, r: Result<bool, ErrorView>|
                #[trigger] step(eval, pre, t, mid, r) && if r == Ok::<bool, ErrorView>(false) {
                    run(eval, mid, toks.drop_first(), post, res)
                } else {
                    post == mid && res == r
                },
        }
    }
}

/// The stack calculator. Every operation that changes the stack saves the
/// previous stack, so that `undo` can restore it.
pub struct Calculator {
    stack: Vec<u64>,
    history: Vec<Vec<u64>>,
}

impl View for Calculator {
    type V = CalcState;

    closed spec fn view(&self) -> CalcState {
        CalcState { stack: self.stack@, history: self.history@.map_values(|v: Vec<u64>| v@) }
    }
}

impl Calculator {
    /// A calculator with an empty stack and no history.
    pub fn new() -> (res: Calculator)
        ensures
            res@ == CalcState::empty(),
    {
        let res = Calculator { stack: Vec::new(), history: Vec::new() };
        assert(res@.history =~= Seq::<Seq<u64>>::empty());
        res
    }

    fn save_snapshot(&mut self)
        ensures
            final(self)@ == old(self)@.record(old(self)@.stack),
    {
        let snapshot = self.stack.clone();
        assert(snapshot@ =~= self.stack@);
        self.history.push(snapshot);
        assert(final(self)@.history =~= old(self)@.history.push(old(self)@.stack));
    }

    /// Pushes a value onto the stack.
    pub fn push(&mut self, value: u64)
        ensures
            final(self)@ == old(self)@.record(old(self)@.stack.push(value)),
    {
        self.save_snapshot();
        self.stack.push(value);
    }

    /// The stack, bottom first.
    pub fn stack(&self) -> (res: &[u64])
        ensures
            res@ == self@.stack,
    {
        self.stack.as_slice()
    }

    /// Removes the top element of the stack.
    ///
    /// Fails with a stack underflow, leaving the calculator unchanged, if the stack is empty.
    pub fn pop(&mut self) -> (res: Result<(), CalcError>)
        ensures
            match pop_result(old(self)@) {
                Ok(m) => res is Ok && final(self)@ == m,
                Err(e) => res is Err && res->Err_0@ == e && final(self)@ == old(self)@,
            },
    {
        if self.stack.len() == 0 {
            return Err(
                CalcError::StackUnderflow {
                    operator: String::from_str("pop"),
                    required: 1,
                    available: 0,
                },
            );
        }
        self.save_snapshot();
        self.stack.pop();
        proof {
            assert(final(self)@.stack =~= old(self)@.stack.drop_last());
        }
        Ok(())
    }

    /// Empties the stack.
    pub fn clear(&mut self)
        ensures
            final(self)@ == old(self)@.record(Seq::empty()),
    {
        self.save_snapshot();
        self.stack.clear();
        proof {
            assert(final(self)@.stack =~= Seq::<u64>::empty());
        }
    }

    /// Rotates the stack left by `n` places (right by `-n` places when `n` is
    /// negative), `n` taken modulo the stack length (capped at `i32::MAX`).
    /// A rotation that moves nothing changes nothing, the history included.
    pub fn rotate(&mut self, n: i32)
        ensures
            final(self)@ == rotated(old(self)@, n),
    {
        let len = self.stack.len();
        if len <= 1 {
            return;
        }
        let modulus: i32 = if len <= i32::MAX as usize {
            len as i32
        } else {
            i32::MAX
        };
        let k: i32 = match n.checked_rem_euclid(modulus) {
            Some(k) => k,
            None => 0,
        };
        assert(k == rotation_amount(len as nat, n));
        if k == 0 {
            return;
        }
        let k: usize = k as usize;
        let mut moved: Vec<u64> = Vec::new();
        let mut i: usize = k;
        while i < len
            invariant
                len == self.stack@.len(),
                0 < k < len,
                k <= i <= len,
                moved@ =~= self.stack@.subrange(k as int, i as int),
            decreases len - i,
        {
            moved.push(self.stack[i]);
            i = i + 1;
        }
        let mut j: usize = 0;
        while j < k
            invariant
                len == self.stack@.len(),
                0 < k < len,
                0 <= j <= k,
                moved@ =~= self.stack@.skip(k as int) + self.stack@.take(j as int),
            decreases k - j,
        {
            moved.push(self.stack[j]);
            j = j + 1;
        }
        self.save_snapshot();
        self.stack = moved;
    }

    /// Restores the stack saved by the last operation that changed it.
    ///
    /// Fails with `NothingToUndo`, leaving the calculator unchanged, if there is no history.
    pub fn undo(&mut self) -> (res: Result<(), CalcError>)
        ensures
            match undo_result(old(self)@) {
                Ok(m) => res is Ok && final(self)@ == m,
                Err(e) => res is Err && res->Err_0@ == e && final(self)@ == old(self)@,
            },
    {
        match self.history.pop() {
            Some(previous) => {
                self.stack = previous;
                proof {
                    assert(final(self)@.history =~= old(self)@.history.drop_last());
                }
                Ok(())
            },
            None => Err(CalcError::NothingToUndo),
        }
    }

    /// Replaces the top element by its square root, computed by `eval`.
    ///
    /// Fails, leaving the calculator unchanged, with a stack underflow if the
    /// stack is empty, or with `NegativeSqrt` if the top is less than zero.
    pub fn sqrt<E: Fn(FloatOp) -> u64>(&mut self, eval: &E) -> (res: Result<(), CalcError>)
        requires
            accepts_all(*eval),
        ensures
            match sqrt_error(old(self)@) {
                Some(e) => res is Err && res->Err_0@ == e && final(self)@ == old(self)@,
                None => res is Ok && sqrt_step(*eval, old(self)@, final(self)@),
            },
    {
        let len = self.stack.len();
        if len == 0 {
            return Err(
                CalcError::StackUnderflow {
                    operator: String::from_str("sqrt"),
                    required: 1,
                    available: 0,
                },
            );
        }
        let a = self.stack[len - 1];
        if bits_are_negative(a) {
            return Err(CalcError::NegativeSqrt);
        }
        let root = eval(FloatOp::SquareRoot(a));
        self.save_snapshot();
        self.stack.pop();
        self.stack.push(root);
        proof {
            assert(final(self)@.stack =~= old(self)@.stack.drop_last().push(root));
        }
        Ok(())
    }

    /// Replaces the top two elements `a` (below) and `b` by `a op b`, computed by `eval`.
    ///
    /// Fails, leaving the calculator unchanged, with a stack underflow if
    /// fewer than two elements are on the stack, or with `DivisionByZero`
    /// for `/` and `%` when `b` is zero.
    pub fn apply_operator<E: Fn(FloatOp) -> u64>(&mut self, op: &Op, eval: &E) -> (res: Result<
        (),
        CalcError,
    >)
        requires
            accepts_all(*eval),
        ensures
            match operator_error(old(self)@, *op) {
                Some(e) => res is Err && res->Err_0@ == e && final(self)@ == old(self)@,
                None => res is Ok && operator_step(*eval, old(self)@, *op, final(self)@),
            },
    {
        let len = self.stack.len();
        if len < 2 {
            return Err(
                CalcError::StackUnderflow {
                    operator: operator_symbol(op),
                    required: 2,
                    available: len,
                },
            );
        }
        let b = self.stack[len - 1];
        let a = self.stack[len - 2];
        let divides = match op {
            Op::Div | Op::Mod => true,
            _ => false,
        };
        if divides && bits_are_zero(b) {
            return Err(CalcError::DivisionByZero);
        }
        let result = eval(FloatOp::Binary(*op, a, b));
        self.save_snapshot();
        self.stack.pop();
        self.stack.pop();
        self.stack.push(result);
        proof {
            assert(final(self)@.stack =~= old(self)@.stack.take(len - 2).push(result));
        }
        Ok(())
    }
}

impl Calculator {
    /// Processes one token; returns `Ok(true)` if quit was requested. Mode
    /// and help tokens leave the calculator unchanged (the caller handles them).
    pub fn process_token<E: Fn(FloatOp) -> u64>(&mut self, token: Token, eval: &E) -> (res: Result<
        bool,
        CalcError,
    >)
        requires
            accepts_all(*eval),
        ensures
            step(*eval, old(self)@, token@, final(self)@, outcome_view(res)),
    {
        let ghost t = token@;
        match token {
            Token::Number(text) => {
                let ghost lit = text;
                let value = eval(FloatOp::Literal(text));
                self.push(value);
                assert(evaluates(*eval, FloatOp::Literal(lit), value));
                Ok(false)
            },
            Token::Operator(op) => {
                self.apply_operator(&op, eval)?;
                Ok(false)
            },
            Token::Command(Cmd::Clear) => {
                self.clear();
                Ok(false)
            },
            Token::Command(Cmd::Help) | Token::Mode(_) => Ok(false),
            Token::Command(Cmd::Pop) => {
                self.pop()?;
                Ok(false)
            },
            Token::Command(Cmd::Quit) => Ok(true),
            Token::Command(Cmd::Undo) => {
                self.undo()?;
                Ok(false)
            },
            Token::Command(Cmd::Rotate(n)) => {
                self.rotate(n);
                Ok(false)
            },
            Token::Command(Cmd::Sqrt) => {
                self.sqrt(eval)?;
                Ok(false)
            },
        }
    }

    /// Processes a line of input, token by token; returns `Ok(true)` if quit
    /// was requested. Stops at the first error, which it returns, keeping
    /// what the tokens before it did.
    pub fn process_line<E: Fn(FloatOp) -> u64>(&mut self, line: &str, eval: &E) -> (res: Result<
        bool,
        CalcError,
    >)
        requires
            accepts_all(*eval),
        ensures
            run(*eval, old(self)@, parse_text(line@), final(self)@, outcome_view(res)),
    {
        let mut tokens = parse_line(line);
        let ghost toks = parse_text(line@);
        let ghost start = self@;
        let ghost mut i: int = 0;
        assert(toks.skip(0) =~= toks);
        while tokens.len() > 0
            invariant
                accepts_all(*eval),
                toks == parse_text(line@),
                start == old(self)@,
                0 <= i <= toks.len(),
                token_results_view(tokens@) == toks.skip(i),
                forall|post: CalcState, r: Result<bool, ErrorView>|
                    #[trigger] run(*eval, self@, toks.skip(i), post, r) ==> run(
                        *eval,
                        start,
                        toks,
                        post,
                        r,
                    ),
            decreases tokens@.len(),
        {
            let ghost rest = toks.skip(i);
            let ghost pre = self@;
            assert(rest[0] == token_result_view(tokens@[0]));
            let next = tokens.remove(0);
            assert(token_results_view(tokens@) =~= rest.drop_first());
            assert(rest.drop_first() =~= toks.skip(i + 1));
            match next {
                Err(e) => {
                    assert(run(*eval, pre, rest, pre, Err::<bool, ErrorView>(e@)));
                    return Err(e);
                },
                Ok(token) => {
                    let ghost t = token@;
                    let r = self.process_token(token, eval);
                    let ghost rv = outcome_view(r);
                    match r {
                        Ok(false) => {
                            assert forall|post: CalcState, q: Result<bool, ErrorView>|
                                #[trigger] run(*eval, self@, toks.skip(i + 1), post, q) implies run(
                                *eval,
                                start,
                                toks,
                                post,
                                q,
                            ) by {
                                assert(step(*eval, pre, t, self@, rv));
                                assert(run(*eval, pre, rest, post, q));
                            }
                            proof {
                                i = i + 1;
                            }
                        },
                        _ => {
                            assert(step(*eval, pre, t, self@, rv));
                            assert(run(*eval, pre, rest, self@, rv));
                            return r;
                        },
                    }
                },
            }
        }
        assert(run(*eval, self@, toks.skip(i), self@, Ok::<bool, ErrorView>(false)));
        Ok(false)
    }
}

/// The symbol of an operator, as named in errors.
fn operator_symbol(op: &Op) -> (res: String)
    ensures
        res@ == op_symbol(*op),
{
    match op {
        Op::Add => String::from_str("+"),
        Op::Sub => String::from_str("-"),
        Op::Mul => String::from_str("*"),
        Op::Div => String::from_str("/"),
        Op::Pow => String::from_str("^"),
        Op::Mod => String::from_str("%"),
    }
}

impl Default for Calculator {
    fn default() -> (res: Calculator)
        ensures
            res@ == CalcState::empty(),
    {
        Calculator::new()
    }
}

} // verus!
