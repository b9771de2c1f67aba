//! Errors of the calculator and the messages shown for them.

use vstd::prelude::*;

verus! {

/// An error raised while parsing or evaluating input.
#[derive(Debug, PartialEq)]
pub enum CalcError {
    StackUnderflow { operator: String, required: usize, available: usize },
    DivisionByZero,
    NegativeSqrt,
    NothingToUndo,
    UnrecognizedToken(String),
    InvalidDisplayMode(String),
}

/// The mathematical model of a [`CalcError`]: strings are taken by their characters.
pub enum ErrorView {
    StackUnderflow { operator: Seq<char>, required: usize, available: usize },
    DivisionByZero,
    NegativeSqrt,
    NothingToUndo,
    UnrecognizedToken(Seq<char>),
    InvalidDisplayMode(Seq<char>),
}

impl View for CalcError {
    type V = ErrorView;

    open spec fn view(&self) -> ErrorView {
        match self {
            CalcError::StackUnderflow { operator, required, available } => ErrorView::StackUnderflow {
                operator: operator@,
                required: *required,
                available: *available,
            },
            CalcError::DivisionByZero => ErrorView::DivisionByZero,
            CalcError::NegativeSqrt => ErrorView::NegativeSqrt,
            CalcError::NothingToUndo => ErrorView::NothingToUndo,
            CalcError::UnrecognizedToken(t) => ErrorView::UnrecognizedToken(t@),
            CalcError::InvalidDisplayMode(m) => ErrorView::InvalidDisplayMode(m@),
        }
    }
}

/// The text of one decimal digit.
pub open spec fn digit_text(d: nat) -> Seq<char> {
    if d == 0 {
        "0"@
    } else if d == 1 {
        "1"@
    } else if d == 2 {
        "2"@
    } else if d == 3 {
        "3"@
    } else if d == 4 {
        "4"@
    } else if d == 5 {
        "5"@
    } else if d == 6 {
        "6"@
    } else if d == 7 {
        "7"@
    } else if d == 8 {
        "8"@
    } else {
        "9"@
    }
}

/// The decimal notation of a natural number, without leading zeros.
pub open spec fn decimal(n: nat) -> Seq<char>
    decreases n,
{
    if n < 10 {
        digit_text(n)
    } else {
        decimal(n / 10) + digit_text(n % 10)
    }
}

/// The message shown to the user for an error.
pub open spec fn error_message(e: ErrorView) -> Seq<char> {
    match e {
        ErrorView::StackUnderflow { operator, required, available } => "Error: stack underflow — '"@
            + operator + "' requires "@ + decimal(required as nat)
            + " operands, but the stack has "@ + decimal(available as nat),
        ErrorView::DivisionByZero => "Error: division by zero"@,
        ErrorView::NegativeSqrt => "Error: square root of negative number"@,
        ErrorView::NothingToUndo => "Error: nothing to undo"@,
        ErrorView::UnrecognizedToken(t) => "Error: unrecognized token '"@ + t + "'"@,
        ErrorView::InvalidDisplayMode(m) => "Error: invalid display mode '"@ + m
            + "' (valid modes: horizontal, vertical)"@,
    }
}

fn digit_str(d: usize) -> (res: &'static str)
    requires
        d < 10,
    ensures
        res@ == digit_text(d as nat),
{
    match d {
        0 => "0",
        1 => "1",
        2 => "2",
        3 => "3",
        4 => "4",
        5 => "5",
        6 => "6",
        7 => "7",
        8 => "8",
        _ => "9",
    }
}

/// Appends the decimal notation of `n` to `out`.
pub(crate) fn append_decimal(out: &mut String, n: usize)
    ensures
        final(out)@ == old(out)@ + decimal(n as nat),
    decreases n,
{
    if n >= 10 {
        append_decimal(out, n / 10);
    }
    let d = digit_str(n % 10);
    out.append(d);
    assert(final(out)@ == old(out)@ + decimal(n as nat));
}

impl CalcError {
    /// The message shown to the user for this error.
    pub fn message(&self) -> (res: String)
        ensures
            res@ == error_message(self@),
    {
        match self {
            CalcError::StackUnderflow { operator, required, available } => {
                let mut s = String::from_str("Error: stack underflow — '");
                s.append(operator.as_str());
                s.append("' requires ");
                append_decimal(&mut s, *required);
                s.append(" operands, but the stack has ");
                append_decimal(&mut s, *available);
                s
            },
            CalcError::DivisionByZero => String::from_str("Error: division by zero"),
            CalcError::NegativeSqrt => String::from_str("Error: square root of negative number"),
            CalcError::NothingToUndo => String::from_str("Error: nothing to undo"),
            CalcError::UnrecognizedToken(t) => {
                let mut s = String::from_str("Error: unrecognized token '");
                s.append(t.as_str());
                s.append("'");
                s
            },
            CalcError::InvalidDisplayMode(m) => {
                let mut s = String::from_str("Error: invalid display mode '");
                s.append(m.as_str());
                s.append("' (valid modes: horizontal, vertical)");
                s
            },
        }
    }
}

} // verus!
