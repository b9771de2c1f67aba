//! What each kind of token does to the calculator, stated over the bits of
//! the doubles on the stack and over what the evaluator is asked.
//!
//! A double's bit pattern `x` has its sign in bit 63; `x & 0x7FFF_FFFF_FFFF_FFFF`
//! is its magnitude: zero for `+0.0` and `-0.0`, `0x7FF0_0000_0000_0000` for an
//! infinity, and above that for a NaN.

use vstd::prelude::*;

use vstd::arithmetic::div_mod::{lemma_add_mod_noop_right, lemma_small_mod};

use crate::engine::{is_negative_bits, is_zero_bits, operator_error, sqrt_error, step, CalcState, FloatOp};
use crate::error::ErrorView;
use crate::parser::{
    is_float_literal, is_keyword, is_space, parse_text, parse_words, words, Cmd, Op, TokenView,
};
use crate::session::{mode_command, session_run, DisplayMode, NoticeView};

verus! {

/// A double compares equal to zero exactly when its magnitude bits are all clear.
pub proof fn law_zero_is_zero_magnitude(x: u64)
    ensures
        is_zero_bits(x) <==> (x & 0x7FFF_FFFF_FFFF_FFFF) == 0,
{
    assert(((x & 0x7FFF_FFFF_FFFF_FFFF) == 0) <==> (x == 0 || x == 0x8000_0000_0000_0000))
        by (bit_vector);
}

/// A double compares less than zero exactly when its sign bit is set and
/// it is neither `-0.0` (magnitude zero) nor a NaN (magnitude above that of
/// infinity): every negative number, however small, and negative infinity.
pub proof fn law_negative_is_signed_number(x: u64)
    ensures
        is_negative_bits(x) <==> ((x >> 63u64) == 1 && (x & 0x7FFF_FFFF_FFFF_FFFF) != 0 && (x
            & 0x7FFF_FFFF_FFFF_FFFF) <= 0x7FF0_0000_0000_0000),
{
    assert(((x >> 63u64) == 1 && (x & 0x7FFF_FFFF_FFFF_FFFF) != 0 && (x & 0x7FFF_FFFF_FFFF_FFFF)
        <= 0x7FF0_0000_0000_0000) <==> (0x8000_0000_0000_0000 < x && x <= 0xFFF0_0000_0000_0000))
        by (bit_vector);
}

/// With two values on the stack, an operator fails only for `/` and `%`
/// when the top value (the divisor) is `+0.0` or `-0.0`, whatever the
/// dividend below it; with fewer, it fails with a stack underflow that
/// names the two values it needs and the number there are.
pub proof fn law_division_refuses_only_zero_divisor(m: CalcState, op: Op)
    ensures
        m.stack.len() >= 2 ==> operator_error(m, op) == (if (op == Op::Div || op == Op::Mod) && (
        m.stack.last() & 0x7FFF_FFFF_FFFF_FFFF) == 0 {
            Some(ErrorView::DivisionByZero)
        } else {
            None::<ErrorView>
        }),
        m.stack.len() < 2 ==> (operator_error(m, op) matches Some(
            ErrorView::StackUnderflow { required, available, .. },
        ) && required == 2 && available == m.stack.len()),
{
    if m.stack.len() >= 2 {
        law_zero_is_zero_magnitude(m.stack.last());
    }
}

/// Whether an operator fails does not depend on the dividend: replacing the
/// value below the top changes nothing about it.
pub proof fn law_operator_error_ignores_dividend(m: CalcState, op: Op, a: u64)
    requires
        m.stack.len() >= 2,
    ensures
        operator_error(m, op) == operator_error(
            CalcState { stack: m.stack.update(m.stack.len() - 2, a), history: m.history },
            op,
        ),
{
    let m2 = CalcState { stack: m.stack.update(m.stack.len() - 2, a), history: m.history };
    assert(m2.stack.last() == m.stack.last());
    law_division_refuses_only_zero_divisor(m, op);
    law_division_refuses_only_zero_divisor(m2, op);
}

/// An operator token on a stack of at least two values: for `/` and `%`
/// with a zero divisor it fails with `DivisionByZero` and changes nothing;
/// otherwise the top two values `a` (below) and `b` are replaced by a value
/// that the evaluator gives for `a op b`, and the old stack is saved for undo.
pub proof fn law_operator_token<E: Fn(FloatOp) -> u64>(
    eval: E,
    pre: CalcState,
    op: Op,
    post: CalcState,
    res: Result<bool, ErrorView>,
)
    requires
        pre.stack.len() >= 2,
        step(eval, pre, TokenView::Operator(op), post, res),
    ensures
        ({
            let n = pre.stack.len() as int;
            if (op == Op::Div || op == Op::Mod) && (pre.stack[n - 1] & 0x7FFF_FFFF_FFFF_FFFF)
                == 0 {
                res == Err::<bool, ErrorView>(ErrorView::DivisionByZero) && post == pre
            } else {
                &&& res == Ok::<bool, ErrorView>(false)
                &&& post.stack.len() == n - 1
                &&& post.stack.drop_last() == pre.stack.take(n - 2)
                &&& post.history == pre.history.push(pre.stack)
                &&& call_ensures(
                    eval,
                    (FloatOp::Binary(op, pre.stack[n - 2], pre.stack[n - 1]),),
                    post.stack.last(),
                )
            }
        }),
{
    law_division_refuses_only_zero_divisor(pre, op);
    let n = pre.stack.len() as int;
    if operator_error(pre, op) is None {
        assert(post.stack.drop_last() =~= pre.stack.take(n - 2));
    }
}

/// The stack underflow of an operator names it by its symbol.
pub proof fn law_underflow_names_operator(m: CalcState, op: Op)
    requires
        m.stack.len() < 2,
    ensures
        operator_error(m, op) matches Some(ErrorView::StackUnderflow { operator, .. }) && operator
            == (match op {
            Op::Add => "+"@,
            Op::Sub => "-"@,
            Op::Mul => "*"@,
            Op::Div => "/"@,
            Op::Pow => "^"@,
            Op::Mod => "%"@,
        }),
{
}

/// `sqrt` on a non-empty stack fails with `NegativeSqrt` exactly when the
/// top value is less than zero: its sign bit is set and it is neither `-0.0`
/// nor a NaN. Any negative value is refused, however small; `-0.0`, NaN and
/// every non-negative value are not.
pub proof fn law_sqrt_refuses_exactly_negatives(m: CalcState)
    requires
        m.stack.len() > 0,
    ensures
        sqrt_error(m) == (if (m.stack.last() >> 63u64) == 1 && (m.stack.last()
            & 0x7FFF_FFFF_FFFF_FFFF) != 0 && (m.stack.last() & 0x7FFF_FFFF_FFFF_FFFF)
            <= 0x7FF0_0000_0000_0000 {
            Some(ErrorView::NegativeSqrt)
        } else {
            None::<ErrorView>
        }),
{
    law_negative_is_signed_number(m.stack.last());
}

/// A `sqrt` token: on an empty stack it fails with a stack underflow that
/// needs one value; on a negative top it fails with `NegativeSqrt`; either
/// way nothing changes. Otherwise the top value `a` is replaced by a value
/// that the evaluator gives for the square root of `a`, and the old stack is
/// saved for undo.
pub proof fn law_sqrt_token<E: Fn(FloatOp) -> u64>(
    eval: E,
    pre: CalcState,
    post: CalcState,
    res: Result<bool, ErrorView>,
)
    requires
        step(eval, pre, TokenView::Command(Cmd::Sqrt), post, res),
    ensures
        pre.stack.len() == 0 ==> post == pre && res == Err::<bool, ErrorView>(
            ErrorView::StackUnderflow { operator: "sqrt"@, required: 1, available: 0 },
        ),
        pre.stack.len() > 0 ==> ({
            let a = pre.stack.last();
            if (a >> 63u64) == 1 && (a & 0x7FFF_FFFF_FFFF_FFFF) != 0 && (a
                & 0x7FFF_FFFF_FFFF_FFFF) <= 0x7FF0_0000_0000_0000 {
                res == Err::<bool, ErrorView>(ErrorView::NegativeSqrt) && post == pre
            } else {
                &&& res == Ok::<bool, ErrorView>(false)
                &&& post.stack.len() == pre.stack.len()
                &&& post.stack.drop_last() == pre.stack.drop_last()
                &&& post.history == pre.history.push(pre.stack)
                &&& call_ensures(eval, (FloatOp::SquareRoot(a),), post.stack.last())
            }
        }),
{
    if pre.stack.len() > 0 {
        law_sqrt_refuses_exactly_negatives(pre);
        if sqrt_error(pre) is None {
            assert(post.stack.drop_last() =~= pre.stack.drop_last());
        }
    }
}

/// `pop` removes the top value and saves the old stack for undo; on an
/// empty stack it fails with a stack underflow that needs one value, and
/// changes nothing.
pub proof fn law_pop_token<E: Fn(FloatOp) -> u64>(
    eval: E,
    pre: CalcState,
    post: CalcState,
    res: Result<bool, ErrorView>,
)
    requires
        step(eval, pre, TokenView::Command(Cmd::Pop), post, res),
    ensures
        pre.stack.len() == 0 ==> post == pre && res == Err::<bool, ErrorView>(
            ErrorView::StackUnderflow { operator: "pop"@, required: 1, available: 0 },
        ),
        pre.stack.len() > 0 ==> res == Ok::<bool, ErrorView>(false) && post.stack
            == pre.stack.take(pre.stack.len() - 1) && post.history == pre.history.push(pre.stack),
{
}

/// `clear` empties the stack and saves the old stack for undo.
pub proof fn law_clear_token<E: Fn(FloatOp) -> u64>(
    eval: E,
    pre: CalcState,
    post: CalcState,
    res: Result<bool, ErrorView>,
)
    requires
        step(eval, pre, TokenView::Command(Cmd::Clear), post, res),
    ensures
        res == Ok::<bool, ErrorView>(false),
        post.stack.len() == 0,
        post.history == pre.history.push(pre.stack),
{
}

/// `undo` restores the most recently saved stack and forgets it; with
/// nothing saved it fails with `NothingToUndo` and changes nothing. It saves
/// nothing itself.
pub proof fn law_undo_token<E: Fn(FloatOp) -> u64>(
    eval: E,
    pre: CalcState,
    post: CalcState,
    res: Result<bool, ErrorView>,
)
    requires
        step(eval, pre, TokenView::Command(Cmd::Undo), post, res),
    ensures
        pre.history.len() == 0 ==> post == pre && res == Err::<bool, ErrorView>(
            ErrorView::NothingToUndo,
        ),
        pre.history.len() > 0 ==> res == Ok::<bool, ErrorView>(false) && post.stack
            == pre.history[pre.history.len() - 1] && post.history == pre.history.take(
            pre.history.len() - 1,
        ),
{
    if pre.history.len() > 0 {
        assert(pre.history.drop_last() =~= pre.history.take(pre.history.len() - 1));
    }
}

/// `quit` asks to stop; `help`, `mode` words and the like leave the
/// calculator as it was.
pub proof fn law_quit_help_mode_tokens<E: Fn(FloatOp) -> u64>(
    eval: E,
    pre: CalcState,
    t: TokenView,
    post: CalcState,
    res: Result<bool, ErrorView>,
)
    requires
        t == TokenView::Command(Cmd::Quit) || t == TokenView::Command(Cmd::Help)
            || t is Mode,
        step(eval, pre, t, post, res),
    ensures
        post == pre,
        res == Ok::<bool, ErrorView>(t == TokenView::Command(Cmd::Quit)),
{
}

/// A rotation by `n` moves the value at position `(i + n) mod len` (counted
/// from the bottom, the remainder taken non-negative) to position `i`: `r`
/// moves the bottom value to the top. A rotation that moves nothing saves
/// nothing; one that does saves the old stack for undo. On fewer than two
/// values it does nothing.
pub proof fn law_rotate_token<E: Fn(FloatOp) -> u64>(
    eval: E,
    pre: CalcState,
    n: i32,
    post: CalcState,
    res: Result<bool, ErrorView>,
)
    requires
        pre.stack.len() <= i32::MAX,
        step(eval, pre, TokenView::Command(Cmd::Rotate(n)), post, res),
    ensures
        res == Ok::<bool, ErrorView>(false),
        pre.stack.len() <= 1 ==> post == pre,
        pre.stack.len() > 1 ==> ({
            let len = pre.stack.len() as int;
            &&& post.stack.len() == len
            &&& forall|i: int| 0 <= i < len ==> #[trigger] post.stack[i] == pre.stack[(i + n) % len]
            &&& (n as int) % len == 0 ==> post == pre
            &&& (n as int) % len != 0 ==> post.history == pre.history.push(pre.stack)
        }),
{
    let len = pre.stack.len() as int;
    if len > 1 {
        let k = (n as int) % len;
        assert forall|i: int| 0 <= i < len implies #[trigger] post.stack[i] == pre.stack[(i + n) % len] by {
            lemma_add_mod_noop_right(i, n as int, len);
            if k == 0 {
                lemma_small_mod(i as nat, len as nat);
            } else {
                crate::laws::lemma_rotate_left_index(pre.stack, k, i);
            }
        }
    }
}

/// A rotation by one on two or more values moves the bottom value to the top.
pub proof fn law_rotate_by_one<E: Fn(FloatOp) -> u64>(
    eval: E,
    pre: CalcState,
    post: CalcState,
    res: Result<bool, ErrorView>,
)
    requires
        2 <= pre.stack.len() <= i32::MAX,
        step(eval, pre, TokenView::Command(Cmd::Rotate(1)), post, res),
    ensures
        post.stack == pre.stack.drop_first().push(pre.stack[0]),
{
    let len = pre.stack.len() as int;
    law_rotate_token(eval, pre, 1, post, res);
    lemma_small_mod(1, len as nat);
    assert forall|i: int| 0 <= i < len implies #[trigger] post.stack[i] == pre.stack.drop_first().push(
        pre.stack[0],
    )[i] by {
        if i < len - 1 {
            lemma_small_mod((i + 1) as nat, len as nat);
        } else {
            assert((i + 1) % len == 0) by {
                vstd::arithmetic::div_mod::lemma_mod_self_0(len);
            }
        }
    }
    assert(post.stack =~= pre.stack.drop_first().push(pre.stack[0]));
}

/// A number token pushes a value that the evaluator gives for exactly the
/// token's own text, the whole word with its sign, and saves the old stack
/// for undo; it never fails.
pub proof fn law_number_token<E: Fn(FloatOp) -> u64>(
    eval: E,
    pre: CalcState,
    text: Seq<char>,
    post: CalcState,
    res: Result<bool, ErrorView>,
)
    requires
        step(eval, pre, TokenView::Number(text), post, res),
    ensures
        res == Ok::<bool, ErrorView>(false),
        post.stack.len() == pre.stack.len() + 1,
        post.stack.drop_last() == pre.stack,
        post.history == pre.history.push(pre.stack),
        exists|s: String|
            s@ == text && #[trigger] call_ensures(eval, (FloatOp::Literal(s),), post.stack.last()),
{
    assert(post.stack.drop_last() =~= pre.stack);
}

/// A non-empty text without white space is one word.
pub proof fn lemma_single_word(w: Seq<char>)
    requires
        w.len() > 0,
        forall|i: int| 0 <= i < w.len() ==> !is_space(#[trigger] w[i]),
    ensures
        words(w) == seq![w],
    decreases w.len(),
{
    if w.len() == 1 {
        assert(w.drop_last() =~= Seq::<char>::empty());
        assert(words(w.drop_last()) =~= Seq::<Seq<char>>::empty());
        assert(seq![w.last()] =~= w);
        assert(!is_space(w[0]));
        assert(words(w) =~= seq![w]);
    } else {
        let u = w.drop_last();
        assert forall|i: int| 0 <= i < u.len() implies !is_space(#[trigger] u[i]) by {
            assert(u[i] == w[i]);
        }
        lemma_single_word(u);
        assert(!is_space(w[w.len() - 1]));
        assert(!is_space(w[w.len() - 2]));
        assert(u.push(w.last()) =~= w);
        assert(seq![u].drop_last().push(u.push(w.last())) =~= seq![w]);
        assert(words(w) =~= seq![w]);
    }
}

/// A line that is a single number word, such as `-2.5`, pushes a value that
/// the evaluator gives for that whole word, sign included.
pub proof fn law_number_line_pushes_its_word<E: Fn(FloatOp) -> u64>(
    eval: E,
    pre: CalcState,
    w: Seq<char>,
    post: CalcState,
    res: Result<bool, ErrorView>,
)
    requires
        w.len() > 0,
        forall|i: int| 0 <= i < w.len() ==> !is_space(#[trigger] w[i]),
        !is_keyword(w),
        w[0] != 'r',
        is_float_literal(w),
        crate::engine::run(eval, pre, parse_text(w), post, res),
    ensures
        res == Ok::<bool, ErrorView>(false),
        post.stack.drop_last() == pre.stack,
        post.history == pre.history.push(pre.stack),
        exists|s: String|
            s@ == w && #[trigger] call_ensures(eval, (FloatOp::Literal(s),), post.stack.last()),
{
    lemma_single_word(w);
    crate::laws::law_number_words(w, Seq::empty());
    assert(seq![w] + Seq::<Seq<char>>::empty() =~= seq![w]);
    let toks = parse_text(w);
    assert(parse_words(Seq::<Seq<char>>::empty()) =~= Seq::<Result<TokenView, ErrorView>>::empty());
    assert(toks =~= seq![Ok::<TokenView, ErrorView>(TokenView::Number(w))]);
    let t = TokenView::Number(w);
    let (mid, r) = choose|mid: CalcState, r: Result<bool, ErrorView>|
        #[trigger] step(eval, pre, t, mid, r) && if r == Ok::<bool, ErrorView>(false) {
            crate::engine::run(eval, mid, toks.drop_first(), post, res)
        } else {
            post == mid && res == r
        };
    law_number_token(eval, pre, w, mid, r);
    assert(toks.drop_first().len() == 0);
}

/// `mode horizontal` and `mode vertical` switch to that display mode,
/// whatever the mode was, and show nothing; a bare `mode` keeps the mode and
/// shows it; any other argument keeps the mode and shows that it is an
/// invalid display mode.
pub proof fn law_mode_word(arg: Option<Seq<char>>, m: DisplayMode)
    ensures
        arg == Some("horizontal"@) ==> mode_command(arg, m) == (
            DisplayMode::Horizontal,
            Seq::<NoticeView>::empty(),
        ),
        arg == Some("vertical"@) ==> mode_command(arg, m) == (
            DisplayMode::Vertical,
            Seq::<NoticeView>::empty(),
        ),
        arg is None ==> mode_command(arg, m) == (m, seq![NoticeView::CurrentMode(m)]),
        (arg matches Some(a) && a != "horizontal"@ && a != "vertical"@) ==> mode_command(arg, m)
            == (m, seq![NoticeView::Error(ErrorView::InvalidDisplayMode(arg->0))]),
{
    reveal_strlit("horizontal");
    reveal_strlit("vertical");
    assert("horizontal"@.len() != "vertical"@.len());
}

/// Setting a display mode does not depend on the mode before: a `mode` word
/// with an argument leads to the same mode from either mode, or keeps each.
pub proof fn law_mode_setting_ignores_previous(a: Seq<char>)
    ensures
        (a == "horizontal"@ || a == "vertical"@) ==> mode_command(
            Some(a),
            DisplayMode::Horizontal,
        ).0 == mode_command(Some(a), DisplayMode::Vertical).0,
        !(a == "horizontal"@ || a == "vertical"@) ==> mode_command(
            Some(a),
            DisplayMode::Horizontal,
        ).0 == DisplayMode::Horizontal && mode_command(Some(a), DisplayMode::Vertical).0
            == DisplayMode::Vertical,
{
    reveal_strlit("horizontal");
    reveal_strlit("vertical");
    assert("horizontal"@.len() != "vertical"@.len());
}

/// A line in a session that is the single token `mode horizontal` (or
/// `mode vertical`) ends in that display mode, whatever the mode was before,
/// shows nothing, and leaves the calculator as it was.
pub proof fn law_session_mode_switch<E: Fn(FloatOp) -> u64>(
    eval: E,
    pre: CalcState,
    mode: DisplayMode,
    a: Seq<char>,
    help_asked: bool,
    post: CalcState,
    post_mode: DisplayMode,
    res: Result<bool, ErrorView>,
    shown: Seq<NoticeView>,
    show_help: bool,
)
    requires
        a == "horizontal"@ || a == "vertical"@,
        session_run(
            eval,
            pre,
            mode,
            seq![Ok::<TokenView, ErrorView>(TokenView::Mode(Some(a)))],
            help_asked,
            post,
            post_mode,
            res,
            shown,
            show_help,
        ),
    ensures
        post_mode == (if a == "horizontal"@ {
            DisplayMode::Horizontal
        } else {
            DisplayMode::Vertical
        }),
        post == pre,
        res == Ok::<bool, ErrorView>(false),
        shown.len() == 0,
{
    let toks = seq![Ok::<TokenView, ErrorView>(TokenView::Mode(Some(a)))];
    law_mode_word(Some(a), mode);
    let (m, first) = mode_command(Some(a), mode);
    assert(first.len() == 0);
    assert(toks[0] == Ok::<TokenView, ErrorView>(TokenView::Mode(Some(a))));
    assert(toks.drop_first() =~= Seq::<Result<TokenView, ErrorView>>::empty());
    assert(shown.skip(0) =~= shown);
    assert(session_run(
        eval,
        pre,
        m,
        toks.drop_first(),
        help_asked,
        post,
        post_mode,
        res,
        shown,
        show_help,
    ));
}

} // verus!
