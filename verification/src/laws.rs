//! Properties of the calculator that span several operations.

use vstd::prelude::*;
use vstd::arithmetic::div_mod::{
    lemma_add_mod_noop, lemma_add_mod_noop_right, lemma_fundamental_div_mod_converse_mod,
    lemma_small_mod,
};

use crate::engine::{
    contains_text, rotate_left, rotated, run, step, undo_result, CalcState, FloatOp,
};
use crate::error::{decimal, error_message, ErrorView};
use crate::parser::{
    classify, is_float_literal, is_keyword, is_space, parse_text, parse_words, rotation_count,
    words, Cmd, TokenView,
};
use crate::session::{session_run, DisplayMode, NoticeView};

verus! {

/// Rotating left by `k` moves the element at `(i + k) mod n` to position `i`.
pub proof fn lemma_rotate_left_index(s: Seq<u64>, k: int, i: int)
    requires
        0 <= k < s.len(),
        0 <= i < s.len(),
    ensures
        rotate_left(s, k).len() == s.len(),
        rotate_left(s, k)[i] == s[(i + k) % (s.len() as int)],
{
    let n = s.len() as int;
    if i < n - k {
        lemma_small_mod((i + k) as nat, n as nat);
    } else {
        lemma_fundamental_div_mod_converse_mod(i + k, n, 1, i + k - n);
    }
}

/// Rotating left by `a`, then by `b`, is rotating left by `(a + b) mod n`.
pub proof fn lemma_rotate_left_compose(s: Seq<u64>, a: int, b: int)
    requires
        0 <= a < s.len(),
        0 <= b < s.len(),
    ensures
        rotate_left(rotate_left(s, a), b) == rotate_left(s, (a + b) % (s.len() as int)),
{
    let n = s.len() as int;
    let k = (a + b) % n;
    let lhs = rotate_left(rotate_left(s, a), b);
    let rhs = rotate_left(s, k);
    lemma_rotate_left_index(s, a, 0);
    assert forall|i: int| 0 <= i < n implies lhs[i] == rhs[i] by {
        lemma_rotate_left_index(rotate_left(s, a), b, i);
        lemma_rotate_left_index(s, a, (i + b) % n);
        lemma_rotate_left_index(s, k, i);
        lemma_small_mod(a as nat, n as nat);
        lemma_add_mod_noop(i + b, a, n);
        lemma_add_mod_noop_right(i, a + b, n);
        assert(i + b + a == i + (a + b));
    }
    lemma_rotate_left_index(rotate_left(s, a), b, 0);
    lemma_rotate_left_index(s, k, 0);
    assert(lhs =~= rhs);
}

/// The stack after `rotate(n)`, as a rotation left by `n mod len`.
proof fn lemma_rotated_stack(m: CalcState, n: i32)
    requires
        1 < m.stack.len() <= i32::MAX,
    ensures
        rotated(m, n).stack == rotate_left(m.stack, n as int % (m.stack.len() as int)),
        0 <= n as int % (m.stack.len() as int) < m.stack.len(),
{
    let k = n as int % (m.stack.len() as int);
    if k == 0 {
        assert(rotate_left(m.stack, 0) =~= m.stack);
    }
}

/// `s` rotated left by `k` places, `k` taken modulo the length.
pub open spec fn rotated_by(s: Seq<u64>, k: int) -> Seq<u64> {
    if s.len() <= 1 {
        s
    } else {
        rotate_left(s, k % (s.len() as int))
    }
}

/// Rotating by `a` and then by `b` rotates the stack by `a + b` modulo its
/// length, for every `a` and `b` (on stacks of at most `i32::MAX` elements,
/// where the count is reduced modulo the length).
pub proof fn law_rotations_compose(m: CalcState, a: i32, b: i32)
    requires
        m.stack.len() <= i32::MAX,
    ensures
        rotated(rotated(m, a), b).stack == rotated_by(m.stack, a as int + b as int),
{
    let n = m.stack.len() as int;
    if n > 1 {
        lemma_rotated_stack(m, a);
        lemma_rotated_stack(rotated(m, a), b);
        lemma_rotate_left_compose(m.stack, a as int % n, b as int % n);
        lemma_add_mod_noop(a as int, b as int, n);
    }
}

/// Rotating right by the count that one rotated left restores the stack.
pub proof fn law_rotation_inverse(m: CalcState, n: i32)
    requires
        m.stack.len() <= i32::MAX,
        n != i32::MIN,
    ensures
        rotated(rotated(m, n), (-n) as i32).stack == m.stack,
{
    law_rotations_compose(m, n, (-n) as i32);
    if m.stack.len() > 1 {
        assert(rotate_left(m.stack, 0) =~= m.stack);
    }
}

/// Rotating by the length of the stack changes nothing.
pub proof fn law_rotation_full_cycle(m: CalcState)
    requires
        m.stack.len() <= i32::MAX,
    ensures
        rotated(m, m.stack.len() as i32) == m,
{
    if m.stack.len() > 1 {
        vstd::arithmetic::div_mod::lemma_mod_self_0(m.stack.len() as int);
    }
}

/// Undo restores what `record` saved.
pub proof fn lemma_record_undone(m: CalcState, s: Seq<u64>)
    ensures
        m.record(s).undone() == Some(m),
{
    assert(m.history.push(m.stack).drop_last() =~= m.history);
}

/// Undo reverts every token, other than `undo` itself, that changed the calculator.
pub proof fn law_undo_reverts_step<E: Fn(FloatOp) -> u64>(
    eval: E,
    pre: CalcState,
    t: TokenView,
    post: CalcState,
    res: Result<bool, ErrorView>,
)
    requires
        step(eval, pre, t, post, res),
        t != TokenView::Command(Cmd::Undo),
        post != pre,
    ensures
        post.undone() == Some(pre),
{
    assert forall|m: CalcState, s: Seq<u64>| #[trigger] m.record(s).undone() == Some(m) by {
        lemma_record_undone(m, s);
    }
}

/// A token whose processing fails leaves the calculator as it was.
pub proof fn law_failed_step_changes_nothing<E: Fn(FloatOp) -> u64>(
    eval: E,
    pre: CalcState,
    t: TokenView,
    post: CalcState,
    res: Result<bool, ErrorView>,
)
    requires
        step(eval, pre, t, post, res),
        res is Err,
    ensures
        post == pre,
{
}

/// The calculator carries over from one line to the next: processing the
/// tokens of one line, which ends without quit or error, and then those of
/// another, is processing both token sequences in order.
pub proof fn law_lines_compose<E: Fn(FloatOp) -> u64>(
    eval: E,
    m: CalcState,
    t1: Seq<Result<TokenView, ErrorView>>,
    mid: CalcState,
    t2: Seq<Result<TokenView, ErrorView>>,
    post: CalcState,
    r: Result<bool, ErrorView>,
)
    requires
        run(eval, m, t1, mid, Ok(false)),
        run(eval, mid, t2, post, r),
    ensures
        run(eval, m, t1 + t2, post, r),
    decreases t1.len(),
{
    if t1.len() == 0 {
        assert(t1 + t2 =~= t2);
    } else {
        assert((t1 + t2)[0] == t1[0]);
        assert((t1 + t2).drop_first() =~= t1.drop_first() + t2);
        match t1[0] {
            Err(e) => {},
            Ok(t) => {
                let (mid1, r1) = choose|mid1: CalcState, r1: Result<bool, ErrorView>|
                    #[trigger] step(eval, m, t, mid1, r1) && if r1 == Ok::<bool, ErrorView>(false) {
                        run(eval, mid1, t1.drop_first(), mid, Ok(false))
                    } else {
                        mid == mid1 && Ok::<bool, ErrorView>(false) == r1
                    };
                law_lines_compose(eval, mid1, t1.drop_first(), mid, t2, post, r);
                assert(step(eval, m, t, mid1, r1));
            },
        }
    }
}

/// A text whose last character is not white space has a word.
proof fn lemma_words_nonempty(s: Seq<char>)
    requires
        s.len() > 0,
        !is_space(s.last()),
    ensures
        words(s).len() > 0,
{
}

/// Joining two texts with white space joins their words.
pub proof fn law_words_of_joined_text(s1: Seq<char>, c: char, s2: Seq<char>)
    requires
        is_space(c),
    ensures
        words(s1.push(c) + s2) == words(s1) + words(s2),
    decreases s2.len(),
{
    let t = s1.push(c) + s2;
    if s2.len() == 0 {
        assert(t =~= s1.push(c));
        assert(t.drop_last() =~= s1);
        assert(words(s1) + words(s2) =~= words(s1));
    } else {
        let d = s2.last();
        let u = s2.drop_last();
        law_words_of_joined_text(s1, c, u);
        assert(t.drop_last() =~= s1.push(c) + u);
        assert(t.last() == d);
        let w1 = words(s1);
        let v = words(u);
        let w = words(t.drop_last());
        assert(w == w1 + v);
        if is_space(d) {
        } else if u.len() >= 1 && !is_space(u.last()) {
            lemma_words_nonempty(u);
            assert(t[t.len() - 2] == u.last());
            assert(s2[s2.len() - 2] == u.last());
            assert(w.drop_last() =~= w1 + v.drop_last());
            assert(w.last() == v.last());
            assert(words(t) =~= w1 + v.drop_last().push(v.last().push(d)));
        } else {
            if u.len() == 0 {
                assert(t[t.len() - 2] == c);
            } else {
                assert(t[t.len() - 2] == u.last());
                assert(s2[s2.len() - 2] == u.last());
            }
            assert(words(t) =~= w1 + v.push(seq![d]));
        }
    }
}

/// Whether the last token of these words is a `mode` without argument: the
/// last word is a `mode` that does not serve as the argument of the one before it.
pub open spec fn ends_with_bare_mode(ws: Seq<Seq<char>>) -> bool
    decreases ws.len(),
{
    if ws.len() == 0 {
        false
    } else if ws[0] == "mode"@ {
        if ws.len() == 1 {
            true
        } else {
            ends_with_bare_mode(ws.skip(2))
        }
    } else {
        ends_with_bare_mode(ws.drop_first())
    }
}

/// The tokens of two sequences of words are the tokens of each, in order,
/// unless the first ends with a `mode` that would take its argument from the second.
pub proof fn law_tokens_of_joined_words(ws1: Seq<Seq<char>>, ws2: Seq<Seq<char>>)
    requires
        !ends_with_bare_mode(ws1),
    ensures
        parse_words(ws1 + ws2) == parse_words(ws1) + parse_words(ws2),
    decreases ws1.len(),
{
    let ws = ws1 + ws2;
    if ws1.len() == 0 {
        assert(ws =~= ws2);
        assert(parse_words(ws1) + parse_words(ws2) =~= parse_words(ws2));
    } else {
        assert(ws[0] == ws1[0]);
        if ws1[0] == "mode"@ {
            assert(ws[1] == ws1[1]);
            assert(ws.skip(2) =~= ws1.skip(2) + ws2);
            law_tokens_of_joined_words(ws1.skip(2), ws2);
            assert(parse_words(ws) =~= parse_words(ws1) + parse_words(ws2));
        } else {
            assert(ws.drop_first() =~= ws1.drop_first() + ws2);
            law_tokens_of_joined_words(ws1.drop_first(), ws2);
            assert(parse_words(ws) =~= parse_words(ws1) + parse_words(ws2));
        }
    }
}

/// The stack persists across lines: processing one line, which ends
/// without quit or error, and then another is processing the two joined by
/// white space into one line (unless the first ends with a bare `mode`,
/// which would take its argument from the second).
pub proof fn law_joined_lines<E: Fn(FloatOp) -> u64>(
    eval: E,
    s1: Seq<char>,
    c: char,
    s2: Seq<char>,
    m: CalcState,
    mid: CalcState,
    post: CalcState,
    r: Result<bool, ErrorView>,
)
    requires
        is_space(c),
        !ends_with_bare_mode(words(s1)),
        run(eval, m, parse_text(s1), mid, Ok(false)),
        run(eval, mid, parse_text(s2), post, r),
    ensures
        run(eval, m, parse_text(s1.push(c) + s2), post, r),
{
    law_words_of_joined_text(s1, c, s2);
    law_tokens_of_joined_words(words(s1), words(s2));
    law_lines_compose(eval, m, parse_text(s1), mid, parse_text(s2), post, r);
}

/// In a session, a line does to the calculator what the calculator's own
/// processing of the line does: mode and help words leave it alone.
pub proof fn law_session_agrees_with_calculator<E: Fn(FloatOp) -> u64>(
    eval: E,
    pre: CalcState,
    mode: DisplayMode,
    toks: Seq<Result<TokenView, ErrorView>>,
    help_asked: bool,
    post: CalcState,
    post_mode: DisplayMode,
    res: Result<bool, ErrorView>,
    shown: Seq<NoticeView>,
    show_help: bool,
)
    requires
        session_run(eval, pre, mode, toks, help_asked, post, post_mode, res, shown, show_help),
    ensures
        run(eval, pre, toks, post, res),
    decreases toks.len(),
{
    if toks.len() > 0 {
        let rest = toks.drop_first();
        match toks[0] {
            Err(e) => {},
            Ok(TokenView::Mode(arg)) => {
                let (m, first) = crate::session::mode_command(arg, mode);
                law_session_agrees_with_calculator(
                    eval,
                    pre,
                    m,
                    rest,
                    help_asked,
                    post,
                    post_mode,
                    res,
                    shown.skip(first.len() as int),
                    show_help,
                );
                assert(step(eval, pre, TokenView::Mode(arg), pre, Ok(false)));
            },
            Ok(TokenView::Command(Cmd::Help)) => {
                law_session_agrees_with_calculator(
                    eval,
                    pre,
                    mode,
                    rest,
                    true,
                    post,
                    post_mode,
                    res,
                    shown,
                    show_help,
                );
                assert(step(eval, pre, TokenView::Command(Cmd::Help), pre, Ok(false)));
            },
            Ok(t) => {
                let (mid, r) = choose|mid: CalcState, r: Result<bool, ErrorView>|
                    #[trigger] step(eval, pre, t, mid, r) && if r == Ok::<bool, ErrorView>(false) {
                        session_run(
                            eval,
                            mid,
                            mode,
                            rest,
                            help_asked,
                            post,
                            post_mode,
                            res,
                            shown,
                            show_help,
                        )
                    } else {
                        &&& post == mid
                        &&& post_mode == mode
                        &&& res == r
                        &&& shown.len() == 0
                        &&& !show_help
                    };
                if r == Ok::<bool, ErrorView>(false) {
                    law_session_agrees_with_calculator(
                        eval,
                        mid,
                        mode,
                        rest,
                        help_asked,
                        post,
                        post_mode,
                        res,
                        shown,
                        show_help,
                    );
                }
                assert(step(eval, pre, t, mid, r));
            },
        }
    }
}

/// The help text is shown after a line exactly when the line was processed
/// to its end, without error or quit, and a `help` word was among its tokens.
pub proof fn law_help_shown_iff_asked<E: Fn(FloatOp) -> u64>(
    eval: E,
    pre: CalcState,
    mode: DisplayMode,
    toks: Seq<Result<TokenView, ErrorView>>,
    help_asked: bool,
    post: CalcState,
    post_mode: DisplayMode,
    res: Result<bool, ErrorView>,
    shown: Seq<NoticeView>,
    show_help: bool,
)
    requires
        session_run(eval, pre, mode, toks, help_asked, post, post_mode, res, shown, show_help),
    ensures
        show_help == (res == Ok::<bool, ErrorView>(false) && (help_asked || toks.contains(
            Ok(TokenView::Command(Cmd::Help)),
        ))),
    decreases toks.len(),
{
    let help = Ok::<TokenView, ErrorView>(TokenView::Command(Cmd::Help));
    if toks.len() > 0 {
        let rest = toks.drop_first();
        assert(toks.contains(help) <==> toks[0] == help || rest.contains(help)) by {
            if toks.contains(help) {
                let i = choose|i: int| 0 <= i < toks.len() && toks[i] == help;
                if i > 0 {
                    assert(rest[i - 1] == toks[i]);
                }
            }
            if rest.contains(help) {
                let i = choose|i: int| 0 <= i < rest.len() && rest[i] == help;
                assert(toks[i + 1] == rest[i]);
            }
            if toks[0] == help {
                assert(toks.contains(help));
            }
        }
        match toks[0] {
            Err(e) => {},
            Ok(TokenView::Mode(arg)) => {
                let (m, first) = crate::session::mode_command(arg, mode);
                law_help_shown_iff_asked(
                    eval,
                    pre,
                    m,
                    rest,
                    help_asked,
                    post,
                    post_mode,
                    res,
                    shown.skip(first.len() as int),
                    show_help,
                );
            },
            Ok(TokenView::Command(Cmd::Help)) => {
                law_help_shown_iff_asked(
                    eval,
                    pre,
                    mode,
                    rest,
                    true,
                    post,
                    post_mode,
                    res,
                    shown,
                    show_help,
                );
            },
            Ok(t) => {
                let (mid, r) = choose|mid: CalcState, r: Result<bool, ErrorView>|
                    #[trigger] step(eval, pre, t, mid, r) && if r == Ok::<bool, ErrorView>(false) {
                        session_run(
                            eval,
                            mid,
                            mode,
                            rest,
                            help_asked,
                            post,
                            post_mode,
                            res,
                            shown,
                            show_help,
                        )
                    } else {
                        &&& post == mid
                        &&& post_mode == mode
                        &&& res == r
                        &&& shown.len() == 0
                        &&& !show_help
                    };
                if r == Ok::<bool, ErrorView>(false) {
                    law_help_shown_iff_asked(
                        eval,
                        mid,
                        mode,
                        rest,
                        help_asked,
                        post,
                        post_mode,
                        res,
                        shown,
                        show_help,
                    );
                }
            },
        }
    }
}

/// The tokens that reach the calculator: all but the mode and help words.
pub open spec fn engine_tokens(toks: Seq<Result<TokenView, ErrorView>>) -> Seq<
    Result<TokenView, ErrorView>,
>
    decreases toks.len(),
{
    if toks.len() == 0 {
        Seq::empty()
    } else {
        let rest = engine_tokens(toks.drop_first());
        match toks[0] {
            Ok(TokenView::Mode(_)) => rest,
            Ok(TokenView::Command(Cmd::Help)) => rest,
            x => seq![x] + rest,
        }
    }
}

/// Mode and help words never reach the calculator: processing a line's
/// tokens does what processing them without the mode and help words does.
pub proof fn law_mode_and_help_skip_calculator<E: Fn(FloatOp) -> u64>(
    eval: E,
    pre: CalcState,
    toks: Seq<Result<TokenView, ErrorView>>,
    post: CalcState,
    res: Result<bool, ErrorView>,
)
    ensures
        run(eval, pre, toks, post, res) == run(eval, pre, engine_tokens(toks), post, res),
    decreases toks.len(),
{
    if toks.len() > 0 {
        let rest = toks.drop_first();
        let er = engine_tokens(rest);
        match toks[0] {
            Ok(TokenView::Mode(arg)) => {
                law_mode_and_help_skip_calculator(eval, pre, rest, post, res);
                if run(eval, pre, rest, post, res) {
                    assert(step(eval, pre, TokenView::Mode(arg), pre, Ok(false)));
                }
            },
            Ok(TokenView::Command(Cmd::Help)) => {
                law_mode_and_help_skip_calculator(eval, pre, rest, post, res);
                if run(eval, pre, rest, post, res) {
                    assert(step(eval, pre, TokenView::Command(Cmd::Help), pre, Ok(false)));
                }
            },
            Err(e) => {
                assert((seq![toks[0]] + er)[0] == toks[0]);
            },
            Ok(t) => {
                let et = seq![toks[0]] + er;
                assert(et[0] == toks[0]);
                assert(et.drop_first() =~= er);
                assert forall|mid: CalcState, r: Result<bool, ErrorView>|
                    #[trigger] step(eval, pre, t, mid, r) && r == Ok::<bool, ErrorView>(false)
                    implies run(eval, mid, rest, post, res) == run(eval, mid, er, post, res) by {
                    law_mode_and_help_skip_calculator(eval, mid, rest, post, res);
                }
            },
        }
    }
}

/// Mode words change neither the stack nor the history, so `undo` is not
/// affected by them: a line of mode words leaves the calculator as it was.
pub proof fn law_mode_words_keep_calculator<E: Fn(FloatOp) -> u64>(
    eval: E,
    pre: CalcState,
    mode: DisplayMode,
    toks: Seq<Result<TokenView, ErrorView>>,
    help_asked: bool,
    post: CalcState,
    post_mode: DisplayMode,
    res: Result<bool, ErrorView>,
    shown: Seq<NoticeView>,
    show_help: bool,
)
    requires
        forall|i: int| 0 <= i < toks.len() ==> (#[trigger] toks[i] matches Ok(TokenView::Mode(_))),
        session_run(eval, pre, mode, toks, help_asked, post, post_mode, res, shown, show_help),
    ensures
        post == pre,
        res == Ok::<bool, ErrorView>(false),
    decreases toks.len(),
{
    if toks.len() > 0 {
        let rest = toks.drop_first();
        assert(toks[0] matches Ok(TokenView::Mode(_)));
        match toks[0] {
            Ok(TokenView::Mode(arg)) => {
                let (m, first) = crate::session::mode_command(arg, mode);
                assert forall|i: int| 0 <= i < rest.len() implies (#[trigger] rest[i] matches Ok(
                    TokenView::Mode(_),
                )) by {
                    assert(rest[i] == toks[i + 1]);
                }
                law_mode_words_keep_calculator(
                    eval,
                    pre,
                    m,
                    rest,
                    help_asked,
                    post,
                    post_mode,
                    res,
                    shown.skip(first.len() as int),
                    show_help,
                );
            },
            _ => {},
        }
    }
}

/// A word that begins with `r` (and is not the argument of a `mode`) is a
/// rotation: by 1 for `r`, by -1 for `r-`, by the decimal `i32` after the
/// `r` otherwise; any other such word is unrecognized, never a number. The
/// words after it are parsed on.
pub proof fn law_rotation_words(w: Seq<char>, rest: Seq<Seq<char>>)
    requires
        w.len() > 0,
        w[0] == 'r',
    ensures
        parse_words(seq![w] + rest) == seq![
            match rotation_count(w.drop_first()) {
                Some(n) => Ok(TokenView::Command(Cmd::Rotate(n))),
                None => Err(ErrorView::UnrecognizedToken(w)),
            },
        ] + parse_words(rest),
{
    reveal_strlit("clear");
    reveal_strlit("help");
    reveal_strlit("pop");
    reveal_strlit("quit");
    reveal_strlit("undo");
    reveal_strlit("sqrt");
    reveal_strlit("mode");
    let ws = seq![w] + rest;
    assert(ws[0] == w);
    assert(ws.drop_first() =~= rest);
    assert(w != "mode"@ && w != "clear"@ && w != "help"@ && w != "pop"@ && w != "quit"@ && w
        != "undo"@ && w != "sqrt"@);
    assert(w != seq!['+'] && w != seq!['-'] && w != seq!['*'] && w != seq!['/'] && w != seq![
        '^',
    ] && w != seq!['%']) by {
        assert(seq!['+'][0] == '+');
        assert(seq!['-'][0] == '-');
        assert(seq!['*'][0] == '*');
        assert(seq!['/'][0] == '/');
        assert(seq!['^'][0] == '^');
        assert(seq!['%'][0] == '%');
    }
}

/// A word that is no fixed word, does not begin with `r`, and is no float
/// literal (and is not the argument of a `mode`) is unrecognized, and the
/// words after it are parsed on.
pub proof fn law_unrecognized_words(w: Seq<char>, rest: Seq<Seq<char>>)
    requires
        !is_keyword(w),
        !(w.len() > 0 && w[0] == 'r'),
        !is_float_literal(w),
    ensures
        parse_words(seq![w] + rest) == seq![Err::<TokenView, ErrorView>(ErrorView::UnrecognizedToken(w))]
            + parse_words(rest),
{
    let ws = seq![w] + rest;
    assert(ws[0] == w);
    assert(ws.drop_first() =~= rest);
}

/// A float literal that is no fixed word and does not begin with `r` (and
/// is not the argument of a `mode`) is a number carrying its text.
pub proof fn law_number_words(w: Seq<char>, rest: Seq<Seq<char>>)
    requires
        !is_keyword(w),
        !(w.len() > 0 && w[0] == 'r'),
        is_float_literal(w),
    ensures
        parse_words(seq![w] + rest) == seq![Ok::<TokenView, ErrorView>(TokenView::Number(w))]
            + parse_words(rest),
{
    let ws = seq![w] + rest;
    assert(ws[0] == w);
    assert(ws.drop_first() =~= rest);
}

/// The first nine characters of each kind of error message.
pub open spec fn message_head(e: ErrorView) -> Seq<char> {
    match e {
        ErrorView::StackUnderflow { .. } => "Error: st"@,
        ErrorView::DivisionByZero => "Error: di"@,
        ErrorView::NegativeSqrt => "Error: sq"@,
        ErrorView::NothingToUndo => "Error: no"@,
        ErrorView::UnrecognizedToken(_) => "Error: un"@,
        ErrorView::InvalidDisplayMode(_) => "Error: in"@,
    }
}

/// `k` occurs in `a + k + b`.
proof fn lemma_contains_middle(a: Seq<char>, k: Seq<char>, b: Seq<char>)
    ensures
        contains_text(a + k + b, k),
{
    let s = a + k + b;
    assert(s.subrange(a.len() as int, a.len() as int + k.len()) =~= k);
}

/// Every error message begins with `Error: `, and its first nine characters
/// tell which kind of error it is (see [`law_message_heads_differ`]).
pub proof fn law_error_message_head(e: ErrorView)
    ensures
        error_message(e).len() >= 9,
        error_message(e).take(9) == message_head(e),
        message_head(e).take(7) == "Error: "@,
{
    reveal_strlit("Error: ");
    let msg = error_message(e);
    match e {
        ErrorView::StackUnderflow { operator, required, available } => {
            reveal_strlit("Error: st");
            reveal_strlit("Error: stack underflow — '");
            let p = "Error: stack underflow — '"@;
            assert(msg == p + (operator + "' requires "@ + decimal(required as nat)
                + " operands, but the stack has "@ + decimal(available as nat)));
            assert(msg.take(9) =~= p.take(9));
        },
        ErrorView::DivisionByZero => {
            reveal_strlit("Error: di");
            reveal_strlit("Error: division by zero");
        },
        ErrorView::NegativeSqrt => {
            reveal_strlit("Error: sq");
            reveal_strlit("Error: square root of negative number");
        },
        ErrorView::NothingToUndo => {
            reveal_strlit("Error: no");
            reveal_strlit("Error: nothing to undo");
        },
        ErrorView::UnrecognizedToken(t) => {
            reveal_strlit("Error: un");
            reveal_strlit("Error: unrecognized token '");
            let p = "Error: unrecognized token '"@;
            assert(msg == p + (t + "'"@));
            assert(msg.take(9) =~= p.take(9));
        },
        ErrorView::InvalidDisplayMode(m) => {
            reveal_strlit("Error: in");
            reveal_strlit("Error: invalid display mode '");
            let p = "Error: invalid display mode '"@;
            assert(msg == p + (m + "' (valid modes: horizontal, vertical)"@));
            assert(msg.take(9) =~= p.take(9));
        },
    }
    assert(msg.take(9) =~= message_head(e));
    assert(message_head(e).take(7) =~= "Error: "@);
}

/// No two kinds of error share the first nine characters of their messages.
pub proof fn law_message_heads_differ(e: ErrorView, f: ErrorView)
    requires
        message_head(e) == message_head(f),
    ensures
        e is StackUnderflow <==> f is StackUnderflow,
        e is DivisionByZero <==> f is DivisionByZero,
        e is NegativeSqrt <==> f is NegativeSqrt,
        e is NothingToUndo <==> f is NothingToUndo,
        e is UnrecognizedToken <==> f is UnrecognizedToken,
        e is InvalidDisplayMode <==> f is InvalidDisplayMode,
{
    reveal_strlit("Error: st");
    reveal_strlit("Error: di");
    reveal_strlit("Error: sq");
    reveal_strlit("Error: no");
    reveal_strlit("Error: un");
    reveal_strlit("Error: in");
    match e {
        ErrorView::StackUnderflow { .. } => {
            assert(message_head(f)[7] == 's' && message_head(f)[8] == 't');
        },
        ErrorView::DivisionByZero => {
            assert(message_head(f)[7] == 'd');
        },
        ErrorView::NegativeSqrt => {
            assert(message_head(f)[7] == 's' && message_head(f)[8] == 'q');
        },
        ErrorView::NothingToUndo => {
            assert(message_head(f)[7] == 'n');
        },
        ErrorView::UnrecognizedToken(_) => {
            assert(message_head(f)[7] == 'u');
        },
        ErrorView::InvalidDisplayMode(_) => {
            assert(message_head(f)[7] == 'i');
        },
    }
}

proof fn lemma_underflow_message(operator: Seq<char>, required: usize, available: usize)
    ensures
        ({
            let msg = error_message(
                ErrorView::StackUnderflow { operator, required, available },
            );
            &&& contains_text(msg, "'"@ + operator + "'"@)
            &&& contains_text(msg, decimal(required as nat))
            &&& contains_text(msg, decimal(available as nat))
        }),
{
    reveal_strlit("'");
    reveal_strlit("Error: stack underflow — '");
    reveal_strlit("' requires ");
    let msg = error_message(ErrorView::StackUnderflow { operator, required, available });
    let p = "Error: stack underflow — '"@;
    let q = "' requires "@;
    let r = " operands, but the stack has "@;
    let dr = decimal(required as nat);
    let da = decimal(available as nat);
    assert(msg == p + operator + q + dr + r + da);
    let p0 = p.drop_last();
    let q0 = q.drop_first();
    assert(p =~= p0 + "'"@);
    assert(q =~= "'"@ + q0);
    let k = "'"@ + operator + "'"@;
    lemma_contains_middle(p0, k, q0 + dr + r + da);
    assert(p0 + k + (q0 + dr + r + da) =~= msg);
    lemma_contains_middle(p + operator + q, dr, r + da);
    assert(p + operator + q + dr + (r + da) =~= msg);
    lemma_contains_middle(p + operator + q + dr + r, da, Seq::empty());
    assert(p + operator + q + dr + r + da + Seq::<char>::empty() =~= msg);
}

proof fn lemma_quoted_message(p: Seq<char>, t: Seq<char>, q: Seq<char>)
    requires
        p.len() > 0,
        p.last() == '\'',
        q.len() > 0,
        q[0] == '\'',
    ensures
        contains_text(p + t + q, "'"@ + t + "'"@),
{
    reveal_strlit("'");
    let p0 = p.drop_last();
    let q0 = q.drop_first();
    assert(p =~= p0 + "'"@);
    assert(q =~= "'"@ + q0);
    lemma_contains_middle(p0, "'"@ + t + "'"@, q0);
    assert(p0 + ("'"@ + t + "'"@) + q0 =~= p + t + q);
}

/// An error message quotes the unrecognized token, the invalid display
/// mode, or the operator of a stack underflow, and gives the required and
/// available counts of a stack underflow in decimal.
pub proof fn law_error_message_contents(e: ErrorView)
    ensures
        match e {
            ErrorView::StackUnderflow { operator, required, available } => {
                &&& contains_text(error_message(e), "'"@ + operator + "'"@)
                &&& contains_text(error_message(e), decimal(required as nat))
                &&& contains_text(error_message(e), decimal(available as nat))
            },
            ErrorView::UnrecognizedToken(t) => contains_text(error_message(e), "'"@ + t + "'"@),
            ErrorView::InvalidDisplayMode(m) => contains_text(error_message(e), "'"@ + m + "'"@),
            _ => true,
        },
{
    match e {
        ErrorView::StackUnderflow { operator, required, available } => {
            lemma_underflow_message(operator, required, available);
        },
        ErrorView::UnrecognizedToken(t) => {
            reveal_strlit("Error: unrecognized token '");
            reveal_strlit("'");
            lemma_quoted_message("Error: unrecognized token '"@, t, "'"@);
        },
        ErrorView::InvalidDisplayMode(m) => {
            reveal_strlit("Error: invalid display mode '");
            reveal_strlit("' (valid modes: horizontal, vertical)");
            lemma_quoted_message(
                "Error: invalid display mode '"@,
                m,
                "' (valid modes: horizontal, vertical)"@,
            );
        },
        _ => {},
    }
}

/// The history counts the changes not undone: a token other than `undo`
/// either leaves the calculator as it was or saves exactly the stack it
/// replaced, and `undo` succeeds exactly when something is saved, restoring
/// the last saved stack and removing it from the history.
pub proof fn law_history_counts_changes<E: Fn(FloatOp) -> u64>(
    eval: E,
    pre: CalcState,
    t: TokenView,
    post: CalcState,
    res: Result<bool, ErrorView>,
)
    requires
        step(eval, pre, t, post, res),
    ensures
        t != TokenView::Command(Cmd::Undo) ==> post == pre || (post.history == pre.history.push(
            pre.stack,
        )),
        t == TokenView::Command(Cmd::Undo) ==> {
            &&& (res is Ok <==> pre.history.len() > 0)
            &&& res is Ok ==> post.history == pre.history.drop_last() && post.stack
                == pre.history.last()
            &&& res is Err ==> post == pre
        },
{
}

/// A line of nothing but white space has no words.
pub proof fn lemma_blank_words(s: Seq<char>)
    requires
        forall|i: int| 0 <= i < s.len() ==> is_space(#[trigger] s[i]),
    ensures
        words(s) == Seq::<Seq<char>>::empty(),
    decreases s.len(),
{
    if s.len() > 0 {
        assert(is_space(s[s.len() - 1]));
        lemma_blank_words(s.drop_last());
    }
}

/// A line of nothing but white space (the empty line included) has no tokens.
pub proof fn law_blank_line_has_no_tokens(s: Seq<char>)
    requires
        forall|i: int| 0 <= i < s.len() ==> is_space(#[trigger] s[i]),
    ensures
        parse_text(s) == Seq::<Result<TokenView, ErrorView>>::empty(),
{
    lemma_blank_words(s);
}

/// Every word is a non-empty run of characters that are not white space,
/// and a word that ends at the end of the line ends with its last character.
pub proof fn law_words_are_nonblank(s: Seq<char>)
    ensures
        forall|k: int|
            0 <= k < words(s).len() ==> (#[trigger] words(s)[k]).len() > 0 && forall|j: int|
                0 <= j < words(s)[k].len() ==> !is_space(#[trigger] words(s)[k][j]),
    decreases s.len(),
{
    if s.len() > 0 {
        let w = words(s.drop_last());
        let c = s.last();
        law_words_are_nonblank(s.drop_last());
        if is_space(c) {
        } else if s.len() >= 2 && !is_space(s[s.len() - 2]) && w.len() > 0 {
            let last = w.last().push(c);
            assert forall|j: int| 0 <= j < last.len() implies !is_space(#[trigger] last[j]) by {
                if j < w.last().len() {
                    assert(w[w.len() - 1][j] == last[j]);
                }
            }
            assert forall|k: int| 0 <= k < words(s).len() implies (#[trigger] words(s)[k]).len()
                > 0 && forall|j: int|
                0 <= j < words(s)[k].len() ==> !is_space(#[trigger] words(s)[k][j]) by {
                if k < w.len() - 1 {
                    assert(words(s)[k] == w[k]);
                } else {
                    assert(words(s)[k] == last);
                }
            }
        } else {
            assert forall|k: int| 0 <= k < words(s).len() implies (#[trigger] words(s)[k]).len()
                > 0 && forall|j: int|
                0 <= j < words(s)[k].len() ==> !is_space(#[trigger] words(s)[k][j]) by {
                if k < w.len() {
                    assert(words(s)[k] == w[k]);
                } else {
                    assert(words(s)[k] == seq![c]);
                }
            }
        }
    }
}

} // verus!
