//! Splitting an input line into tokens.

use vstd::prelude::*;

use crate::error::{CalcError, ErrorView};

verus! {

/// A binary operator.
#[derive(Debug, Clone, Copy, PartialEq, Eq, Structural)]
pub enum Op {
    Add,
    Sub,
    Mul,
    Div,
    Pow,
    Mod,
}

/// A command word.
#[derive(Debug, Clone, Copy, PartialEq, Eq, Structural)]
pub enum Cmd {
    Clear,
    Help,
    Pop,
    Quit,
    Undo,
    /// Rotate the stack left by the count (right when it is negative).
    Rotate(i32),
    Sqrt,
}

/// One token of input. A number is carried as the text of its literal,
/// which the float grammar of [`is_float_literal`] accepts.
#[derive(Debug, PartialEq)]
pub enum Token {
    Number(String),
    Operator(Op),
    Command(Cmd),
    Mode(Option<String>),
}

/// The mathematical model of a [`Token`].
pub enum TokenView {
    Number(Seq<char>),
    Operator(Op),
    Command(Cmd),
    Mode(Option<Seq<char>>),
}

impl View for Token {
    type V = TokenView;

    open spec fn view(&self) -> TokenView {
        match self {
            Token::Number(s) => TokenView::Number(s@),
            Token::Operator(op) => TokenView::Operator(*op),
            Token::Command(c) => TokenView::Command(*c),
            Token::Mode(None) => TokenView::Mode(None),
            Token::Mode(Some(s)) => TokenView::Mode(Some(s@)),
        }
    }
}

/// Whether `c` is white space: the characters with the Unicode `White_Space`
/// property, which are the ones that separate words.
pub open spec fn is_space(c: char) -> bool {
    let u = c as u32;
    ||| 0x09 <= u <= 0x0D
    ||| u == 0x20
    ||| u == 0x85
    ||| u == 0xA0
    ||| u == 0x1680
    ||| 0x2000 <= u <= 0x200A
    ||| u == 0x2028
    ||| u == 0x2029
    ||| u == 0x202F
    ||| u == 0x205F
    ||| u == 0x3000
}

/// Whether `c` is white space.
pub fn is_space_char(c: char) -> (res: bool)
    ensures
        res == is_space(c),
{
    let u = c as u32;
    (0x09 <= u && u <= 0x0D) || u == 0x20 || u == 0x85 || u == 0xA0 || u == 0x1680 || (0x2000
        <= u && u <= 0x200A) || u == 0x2028 || u == 0x2029 || u == 0x202F || u == 0x205F || u
        == 0x3000
}

/// The words of `s`: its maximal runs of characters that are not white space,
/// in order. Read left to right, a character that is not white space extends
/// the current word if the character before it is not white space either,
/// and begins a new word otherwise.
pub open spec fn words(s: Seq<char>) -> Seq<Seq<char>>
    decreases s.len(),
{
    if s.len() == 0 {
        Seq::empty()
    } else {
        let w = words(s.drop_last());
        let c = s.last();
        if is_space(c) {
            w
        } else if s.len() >= 2 && !is_space(s[s.len() - 2]) && w.len() > 0 {
            w.drop_last().push(w.last().push(c))
        } else {
            w.push(seq![c])
        }
    }
}

/// The texts that the bounds `b` (start, end) delimit in `s`.
pub open spec fn bounded_texts(s: Seq<char>, b: Seq<(usize, usize)>) -> Seq<Seq<char>> {
    b.map_values(|p: (usize, usize)| s.subrange(p.0 as int, p.1 as int))
}

/// The characters of `input`.
fn chars_of(input: &str) -> (res: Vec<char>)
    ensures
        res@ == input@,
{
    let n = input.unicode_len();
    let mut res: Vec<char> = Vec::new();
    let mut i: usize = 0;
    while i < n
        invariant
            n == input@.len(),
            i <= n,
            res@ =~= input@.take(i as int),
        decreases n - i,
    {
        res.push(input.get_char(i));
        i = i + 1;
    }
    res
}

/// The start and end of each word of `s`.
fn word_bounds(s: &Vec<char>) -> (res: Vec<(usize, usize)>)
    ensures
        bounded_texts(s@, res@) == words(s@),
        forall|k: int| 0 <= k < res@.len() ==> (#[trigger] res@[k]).0 <= res@[k].1 <= s@.len(),
{
    let n = s.len();
    let mut b: Vec<(usize, usize)> = Vec::new();
    let mut i: usize = 0;
    while i < n
        invariant
            n == s@.len(),
            i <= n,
            forall|k: int| 0 <= k < b@.len() ==> (#[trigger] b@[k]).0 <= b@[k].1 <= i,
            bounded_texts(s@, b@) =~= words(s@.take(i as int)),
            i > 0 && !is_space(s@[i - 1]) ==> b@.len() > 0 && b@.last().1 == i,
        decreases n - i,
    {
        let c = s[i];
        let ghost pre = s@.take(i as int);
        let ghost cur = s@.take(i + 1);
        assert(cur.drop_last() =~= pre);
        assert(cur.last() == c);
        if is_space_char(c) {
        } else if i > 0 && !is_space_char(s[i - 1]) {
            let last = b.len() - 1;
            let (start, _) = b[last];
            let ghost old_b = b@;
            b.set(last, (start, i + 1));
            assert(s@.subrange(start as int, i + 1) =~= s@.subrange(start as int, i as int).push(c));
            assert(bounded_texts(s@, b@) =~= bounded_texts(s@, old_b).drop_last().push(
                bounded_texts(s@, old_b).last().push(c),
            ));
        } else {
            let ghost old_b = b@;
            b.push((i, i + 1));
            assert(s@.subrange(i as int, i + 1) =~= seq![c]);
            assert(bounded_texts(s@, b@) =~= bounded_texts(s@, old_b).push(seq![c]));
        }
        i = i + 1;
    }
    assert(s@.take(n as int) =~= s@);
    b
}

/// Whether `c` is a decimal digit `0`..`9`.
pub open spec fn is_digit(c: char) -> bool {
    0x30 <= (c as u32) <= 0x39
}

/// The value of the decimal digit `c`.
pub open spec fn digit_value(c: char) -> int {
    (c as u32) as int - 0x30
}

/// Whether every character of `s` is a decimal digit.
pub open spec fn all_digits(s: Seq<char>) -> bool {
    forall|i: int| 0 <= i < s.len() ==> is_digit(#[trigger] s[i])
}

/// The value of the decimal numeral `s`.
pub open spec fn decimal_value(s: Seq<char>) -> int
    decreases s.len(),
{
    if s.len() == 0 {
        0
    } else {
        decimal_value(s.drop_last()) * 10 + digit_value(s.last())
    }
}

/// The sign of a numeral (true when negative) and the rest after it.
pub open spec fn split_sign(s: Seq<char>) -> (bool, Seq<char>) {
    if s.len() > 0 && s[0] == '-' {
        (true, s.drop_first())
    } else if s.len() > 0 && s[0] == '+' {
        (false, s.drop_first())
    } else {
        (false, s)
    }
}

/// The `i32` that `s` denotes as a decimal integer: an optional sign `+` or
/// `-`, then one or more digits, with a value within the range of `i32`.
pub open spec fn parse_i32(s: Seq<char>) -> Option<i32> {
    let (negative, digits) = split_sign(s);
    let v = if negative {
        -decimal_value(digits)
    } else {
        decimal_value(digits)
    };
    if digits.len() > 0 && all_digits(digits) && i32::MIN <= v <= i32::MAX {
        Some(v as i32)
    } else {
        None
    }
}

proof fn lemma_decimal_nonneg(s: Seq<char>)
    requires
        all_digits(s),
    ensures
        decimal_value(s) >= 0,
    decreases s.len(),
{
    if s.len() > 0 {
        assert(all_digits(s.drop_last()));
        assert(is_digit(s[s.len() - 1]));
        lemma_decimal_nonneg(s.drop_last());
    }
}

/// A numeral is worth at least as much as any of its prefixes.
proof fn lemma_decimal_prefix(s: Seq<char>, j: int)
    requires
        all_digits(s),
        0 <= j <= s.len(),
    ensures
        decimal_value(s) >= decimal_value(s.take(j)),
    decreases s.len(),
{
    if j < s.len() {
        let t = s.drop_last();
        assert(all_digits(t));
        assert(is_digit(s[s.len() - 1]));
        lemma_decimal_nonneg(t);
        lemma_decimal_prefix(t, j);
        assert(t.take(j) =~= s.take(j));
    } else {
        assert(s.take(j) =~= s);
    }
}

/// The value `parse_i32(w[from..])`.
fn parse_i32_from(w: &Vec<char>, from: usize) -> (res: Option<i32>)
    requires
        from <= w@.len(),
    ensures
        res == parse_i32(w@.skip(from as int)),
{
    let n = w.len();
    let ghost s = w@.skip(from as int);
    let negative = from < n && w[from] == '-';
    let start = if from < n && (w[from] == '-' || w[from] == '+') {
        from + 1
    } else {
        from
    };
    let ghost digits = w@.skip(start as int);
    assert(split_sign(s).1 =~= digits);
    assert(split_sign(s).0 == negative);
    if start == n {
        return None;
    }
    let mut acc: i64 = 0;
    let mut j: usize = start;
    while j < n
        invariant
            n == w@.len(),
            start < n,
            start <= j <= n,
            digits == w@.skip(start as int),
            digits == split_sign(w@.skip(from as int)).1,
            all_digits(w@.subrange(start as int, j as int)),
            acc == decimal_value(w@.subrange(start as int, j as int)),
            0 <= acc <= 0x8000_0000,
        decreases n - j,
    {
        let c = w[j];
        let u = c as u32;
        if u < 0x30 || u > 0x39 {
            assert(digits[j - start] == c);
            assert(!all_digits(digits));
            return None;
        }
        let ghost prev = w@.subrange(start as int, j as int);
        let ghost next = w@.subrange(start as int, j + 1);
        assert(next.drop_last() =~= prev);
        assert(next.last() == c);
        assert(all_digits(next));
        assert(decimal_value(next) == decimal_value(prev) * 10 + (u - 0x30));
        acc = acc * 10 + (u - 0x30) as i64;
        if acc > 0x8000_0000 {
            proof {
                if all_digits(digits) {
                    lemma_decimal_prefix(digits, j + 1 - start);
                    assert(digits.take(j + 1 - start) =~= next);
                }
            }
            return None;
        }
        j = j + 1;
    }
    assert(w@.subrange(start as int, n as int) =~= digits);
    if negative {
        Some((-acc) as i32)
    } else if acc <= 0x7FFF_FFFF {
        Some(acc as i32)
    } else {
        None
    }
}

/// Whether `c` is the letter `lower` in either case (`lower` a lower-case ASCII letter).
pub open spec fn same_letter(c: char, lower: char) -> bool {
    c == lower || (c as u32) + 32 == (lower as u32)
}

/// Whether `s` spells the lower-case word `lit`, ignoring ASCII case.
pub open spec fn matches_ignoring_case(s: Seq<char>, lit: Seq<char>) -> bool {
    &&& s.len() == lit.len()
    &&& forall|i: int| 0 <= i < s.len() ==> same_letter(#[trigger] s[i], lit[i])
}

/// Whether `m` is the digits of a float literal: digits, with at most one
/// decimal point among them, and at least one digit.
pub open spec fn is_mantissa(m: Seq<char>) -> bool {
    ||| m.len() > 0 && all_digits(m)
    ||| exists|p: int|
        0 <= p < m.len() && #[trigger] m[p] == '.' && m.len() >= 2 && all_digits(m.take(p))
            && all_digits(m.skip(p + 1))
}

/// Whether `c` introduces an exponent.
pub open spec fn is_exp_marker(c: char) -> bool {
    c == 'e' || c == 'E'
}

/// Whether `x` is the exponent of a float literal (after `e`): an optional sign, then digits.
pub open spec fn is_exponent(x: Seq<char>) -> bool {
    let d = if x.len() > 0 && (x[0] == '+' || x[0] == '-') {
        x.drop_first()
    } else {
        x
    };
    d.len() > 0 && all_digits(d)
}

/// Whether `b` is an unsigned decimal float: a mantissa, optionally followed
/// by `e` or `E` and an exponent.
pub open spec fn is_decimal_number(b: Seq<char>) -> bool {
    ||| is_mantissa(b)
    ||| exists|e: int|
        0 <= e < b.len() && is_exp_marker(#[trigger] b[e]) && is_mantissa(b.take(e)) && is_exponent(
            b.skip(e + 1),
        )
}

/// The text after an optional leading sign.
pub open spec fn unsigned_part(w: Seq<char>) -> Seq<char> {
    if w.len() > 0 && (w[0] == '+' || w[0] == '-') {
        w.drop_first()
    } else {
        w
    }
}

/// Whether `w` is a literal of a double: an optional sign, then `inf`,
/// `infinity` or `nan` in any case, or a decimal float.
pub open spec fn is_float_literal(w: Seq<char>) -> bool {
    let b = unsigned_part(w);
    ||| matches_ignoring_case(b, "inf"@)
    ||| matches_ignoring_case(b, "infinity"@)
    ||| matches_ignoring_case(b, "nan"@)
    ||| is_decimal_number(b)
}

/// Whether `w[lo..hi]` is all digits.
fn all_digits_in(w: &Vec<char>, lo: usize, hi: usize) -> (res: bool)
    requires
        lo <= hi <= w@.len(),
    ensures
        res == all_digits(w@.subrange(lo as int, hi as int)),
{
    let mut i = lo;
    while i < hi
        invariant
            lo <= i <= hi <= w@.len(),
            all_digits(w@.subrange(lo as int, i as int)),
        decreases hi - i,
    {
        let u = w[i] as u32;
        if u < 0x30 || u > 0x39 {
            assert(w@.subrange(lo as int, hi as int)[i - lo] == w@[i as int]);
            return false;
        }
        assert(all_digits(w@.subrange(lo as int, i + 1))) by {
            assert forall|k: int| 0 <= k < i + 1 - lo implies is_digit(
                #[trigger] w@.subrange(lo as int, i + 1)[k],
            ) by {
                if k < i - lo {
                    assert(w@.subrange(lo as int, i + 1)[k] == w@.subrange(lo as int, i as int)[k]);
                }
            }
        }
        i = i + 1;
    }
    true
}

/// Every character of a mantissa is a digit or the decimal point.
proof fn lemma_mantissa_chars(m: Seq<char>)
    requires
        is_mantissa(m),
    ensures
        forall|i: int| 0 <= i < m.len() ==> is_digit(#[trigger] m[i]) || m[i] == '.',
{
    if !(m.len() > 0 && all_digits(m)) {
        let p = choose|p: int|
            0 <= p < m.len() && #[trigger] m[p] == '.' && m.len() >= 2 && all_digits(m.take(p))
                && all_digits(m.skip(p + 1));
        assert forall|i: int| 0 <= i < m.len() implies is_digit(#[trigger] m[i]) || m[i] == '.' by {
            if i < p {
                assert(m.take(p)[i] == m[i]);
            } else if i > p {
                assert(m.skip(p + 1)[i - p - 1] == m[i]);
            }
        }
    }
}

/// Whether `w[lo..hi]` is a mantissa.
fn is_mantissa_in(w: &Vec<char>, lo: usize, hi: usize) -> (res: bool)
    requires
        lo <= hi <= w@.len(),
    ensures
        res == is_mantissa(w@.subrange(lo as int, hi as int)),
{
    let ghost m = w@.subrange(lo as int, hi as int);
    let mut p = lo;
    while p < hi && w[p] != '.'
        invariant
            lo <= p <= hi <= w@.len(),
            m == w@.subrange(lo as int, hi as int),
            forall|k: int| lo <= k < p ==> w@[k] != '.',
        decreases hi - p,
    {
        p = p + 1;
    }
    if p == hi {
        let r = hi > lo && all_digits_in(w, lo, hi);
        assert(!exists|q: int|
            0 <= q < m.len() && #[trigger] m[q] == '.' && m.len() >= 2 && all_digits(m.take(q))
                && all_digits(m.skip(q + 1))) by {
            assert forall|q: int| 0 <= q < m.len() implies #[trigger] m[q] != '.' by {
                assert(m[q] == w@[lo + q]);
            }
        }
        r
    } else {
        let before = all_digits_in(w, lo, p);
        let after = all_digits_in(w, p + 1, hi);
        let r = hi - lo >= 2 && before && after;
        let ghost q0 = p - lo;
        assert(m[q0] == '.');
        assert(!all_digits(m));
        assert(m.take(q0) =~= w@.subrange(lo as int, p as int));
        assert(m.skip(q0 + 1) =~= w@.subrange(p + 1, hi as int));
        if !r {
            assert forall|q: int|
                0 <= q < m.len() && #[trigger] m[q] == '.' && m.len() >= 2 && all_digits(m.take(q))
                    && all_digits(m.skip(q + 1)) implies false by {
                if q < q0 {
                    assert(m[q] == w@[lo + q]);
                } else if q > q0 {
                    assert(m.take(q)[q0] == m[q0]);
                }
            }
        }
        r
    }
}

/// Whether `w[lo..hi]` is an exponent.
fn is_exponent_in(w: &Vec<char>, lo: usize, hi: usize) -> (res: bool)
    requires
        lo <= hi <= w@.len(),
    ensures
        res == is_exponent(w@.subrange(lo as int, hi as int)),
{
    let ghost x = w@.subrange(lo as int, hi as int);
    if lo < hi && (w[lo] == '+' || w[lo] == '-') {
        assert(x.drop_first() =~= w@.subrange(lo + 1, hi as int));
        lo + 1 < hi && all_digits_in(w, lo + 1, hi)
    } else {
        lo < hi && all_digits_in(w, lo, hi)
    }
}

/// Whether `w[lo..hi]` is an unsigned decimal float.
fn is_decimal_number_in(w: &Vec<char>, lo: usize, hi: usize) -> (res: bool)
    requires
        lo <= hi <= w@.len(),
    ensures
        res == is_decimal_number(w@.subrange(lo as int, hi as int)),
{
    let ghost b = w@.subrange(lo as int, hi as int);
    let mut e = lo;
    while e < hi && w[e] != 'e' && w[e] != 'E'
        invariant
            lo <= e <= hi <= w@.len(),
            b == w@.subrange(lo as int, hi as int),
            forall|k: int| lo <= k < e ==> !is_exp_marker(#[trigger] w@[k]),
        decreases hi - e,
    {
        e = e + 1;
    }
    if e == hi {
        let r = is_mantissa_in(w, lo, hi);
        assert forall|q: int| 0 <= q < b.len() implies !is_exp_marker(#[trigger] b[q]) by {
            assert(b[q] == w@[lo + q]);
        }
        r
    } else {
        let ghost e0 = e - lo;
        assert(is_exp_marker(b[e0]));
        assert(b.take(e0) =~= w@.subrange(lo as int, e as int));
        assert(b.skip(e0 + 1) =~= w@.subrange(e + 1, hi as int));
        let r = is_mantissa_in(w, lo, e) && is_exponent_in(w, e + 1, hi);
        proof {
            if is_mantissa(b) {
                lemma_mantissa_chars(b);
                assert(false);
            }
        }
        if !r {
            assert forall|q: int|
                0 <= q < b.len() && is_exp_marker(#[trigger] b[q]) && is_mantissa(b.take(q))
                    && is_exponent(b.skip(q + 1)) implies false by {
                if q < e0 {
                    assert(b[q] == w@[lo + q]);
                } else if q > e0 {
                    lemma_mantissa_chars(b.take(q));
                    assert(b.take(q)[e0] == b[e0]);
                }
            }
        }
        r
    }
}

/// Whether `w[lo..hi]` spells `lit`, ignoring ASCII case.
fn matches_ignoring_case_in(w: &Vec<char>, lo: usize, hi: usize, lit: &str) -> (res: bool)
    requires
        lo <= hi <= w@.len(),
    ensures
        res == matches_ignoring_case(w@.subrange(lo as int, hi as int), lit@),
{
    let ghost s = w@.subrange(lo as int, hi as int);
    let n = lit.unicode_len();
    if hi - lo != n {
        return false;
    }
    let mut i: usize = 0;
    while i < n
        invariant
            n == lit@.len(),
            hi - lo == n,
            lo <= hi <= w@.len(),
            s == w@.subrange(lo as int, hi as int),
            0 <= i <= n,
            forall|k: int| 0 <= k < i ==> same_letter(#[trigger] s[k], lit@[k]),
        decreases n - i,
    {
        let c = w[lo + i];
        let l = lit.get_char(i);
        assert(s[i as int] == c);
        if !(c == l || (c as u32) as u64 + 32 == (l as u32) as u64) {
            return false;
        }
        i = i + 1;
    }
    true
}

/// Whether `w` is a literal of a double.
pub fn is_float_literal_text(w: &Vec<char>) -> (res: bool)
    ensures
        res == is_float_literal(w@),
{
    let n = w.len();
    let lo: usize = if n > 0 && (w[0] == '+' || w[0] == '-') {
        1
    } else {
        0
    };
    assert(unsigned_part(w@) =~= w@.subrange(lo as int, n as int));
    matches_ignoring_case_in(w, lo, n, "inf") || matches_ignoring_case_in(w, lo, n, "infinity")
        || matches_ignoring_case_in(w, lo, n, "nan") || is_decimal_number_in(w, lo, n)
}

/// The count of a rotation word `r<rest>`: 1 for `r`, -1 for `r-`, else the
/// integer `rest`.
pub open spec fn rotation_count(rest: Seq<char>) -> Option<i32> {
    if rest.len() == 0 {
        Some(1i32)
    } else if rest == seq!['-'] {
        Some(-1i32)
    } else {
        parse_i32(rest)
    }
}

/// The token that the word `w` stands for (a word other than `mode`).
pub open spec fn classify(w: Seq<char>) -> Result<TokenView, ErrorView> {
    if w == seq!['+'] {
        Ok(TokenView::Operator(Op::Add))
    } else if w == seq!['-'] {
        Ok(TokenView::Operator(Op::Sub))
    } else if w == seq!['*'] {
        Ok(TokenView::Operator(Op::Mul))
    } else if w == seq!['/'] {
        Ok(TokenView::Operator(Op::Div))
    } else if w == seq!['^'] {
        Ok(TokenView::Operator(Op::Pow))
    } else if w == seq!['%'] {
        Ok(TokenView::Operator(Op::Mod))
    } else if w == "clear"@ {
        Ok(TokenView::Command(Cmd::Clear))
    } else if w == "help"@ {
        Ok(TokenView::Command(Cmd::Help))
    } else if w == "pop"@ {
        Ok(TokenView::Command(Cmd::Pop))
    } else if w == "quit"@ {
        Ok(TokenView::Command(Cmd::Quit))
    } else if w == "undo"@ {
        Ok(TokenView::Command(Cmd::Undo))
    } else if w == "sqrt"@ {
        Ok(TokenView::Command(Cmd::Sqrt))
    } else if w.len() > 0 && w[0] == 'r' {
        match rotation_count(w.drop_first()) {
            Some(n) => Ok(TokenView::Command(Cmd::Rotate(n))),
            None => Err(ErrorView::UnrecognizedToken(w)),
        }
    } else if is_float_literal(w) {
        Ok(TokenView::Number(w))
    } else {
        Err(ErrorView::UnrecognizedToken(w))
    }
}

/// Whether `w` is one of the fixed words: an operator, a command other than
/// a rotation, or `mode`.
pub open spec fn is_keyword(w: Seq<char>) -> bool {
    ||| w == seq!['+']
    ||| w == seq!['-']
    ||| w == seq!['*']
    ||| w == seq!['/']
    ||| w == seq!['^']
    ||| w == seq!['%']
    ||| w == "clear"@
    ||| w == "help"@
    ||| w == "pop"@
    ||| w == "quit"@
    ||| w == "undo"@
    ||| w == "sqrt"@
    ||| w == "mode"@
}

/// The tokens of a sequence of words: `mode` takes the word after it, if
/// any, as its argument; every other word is one token.
pub open spec fn parse_words(ws: Seq<Seq<char>>) -> Seq<Result<TokenView, ErrorView>>
    decreases ws.len(),
{
    if ws.len() == 0 {
        Seq::empty()
    } else if ws[0] == "mode"@ {
        if ws.len() == 1 {
            seq![Ok(TokenView::Mode(None))]
        } else {
            seq![Ok(TokenView::Mode(Some(ws[1])))] + parse_words(ws.skip(2))
        }
    } else {
        seq![classify(ws[0])] + parse_words(ws.drop_first())
    }
}

/// The tokens of a line of input.
pub open spec fn parse_text(s: Seq<char>) -> Seq<Result<TokenView, ErrorView>> {
    parse_words(words(s))
}

/// The model of a token, or of the error in its place.
pub open spec fn token_result_view(r: Result<Token, CalcError>) -> Result<TokenView, ErrorView> {
    match r {
        Ok(t) => Ok(t@),
        Err(e) => Err(e@),
    }
}

/// The models of a sequence of tokens or errors.
pub open spec fn token_results_view(rs: Seq<Result<Token, CalcError>>) -> Seq<
    Result<TokenView, ErrorView>,
> {
    rs.map_values(|r: Result<Token, CalcError>| token_result_view(r))
}

/// Whether `w` is the one character `c`.
fn is_single(w: &Vec<char>, c: char) -> (res: bool)
    ensures
        res == (w@ == seq![c]),
{
    if w.len() == 1 && w[0] == c {
        assert(w@ =~= seq![c]);
        true
    } else {
        proof {
            if w@.len() == 1 {
                assert(w@[0] != seq![c][0]);
            }
        }
        false
    }
}

/// Whether `w` is the text `lit`.
fn is_text(w: &Vec<char>, lit: &str) -> (res: bool)
    ensures
        res == (w@ == lit@),
{
    let n = lit.unicode_len();
    if w.len() != n {
        return false;
    }
    let mut i: usize = 0;
    while i < n
        invariant
            n == lit@.len(),
            w@.len() == n,
            0 <= i <= n,
            forall|k: int| 0 <= k < i ==> w@[k] == lit@[k],
        decreases n - i,
    {
        if w[i] != lit.get_char(i) {
            return false;
        }
        i = i + 1;
    }
    assert(w@ =~= lit@);
    true
}

/// The token that the word `w`, whose text is `text`, stands for.
fn classify_word(w: &Vec<char>, text: String) -> (res: Result<Token, CalcError>)
    requires
        text@ == w@,
    ensures
        token_result_view(res) == classify(w@),
{
    if is_single(w, '+') {
        Ok(Token::Operator(Op::Add))
    } else if is_single(w, '-') {
        Ok(Token::Operator(Op::Sub))
    } else if is_single(w, '*') {
        Ok(Token::Operator(Op::Mul))
    } else if is_single(w, '/') {
        Ok(Token::Operator(Op::Div))
    } else if is_single(w, '^') {
        Ok(Token::Operator(Op::Pow))
    } else if is_single(w, '%') {
        Ok(Token::Operator(Op::Mod))
    } else if is_text(w, "clear") {
        Ok(Token::Command(Cmd::Clear))
    } else if is_text(w, "help") {
        Ok(Token::Command(Cmd::Help))
    } else if is_text(w, "pop") {
        Ok(Token::Command(Cmd::Pop))
    } else if is_text(w, "quit") {
        Ok(Token::Command(Cmd::Quit))
    } else if is_text(w, "undo") {
        Ok(Token::Command(Cmd::Undo))
    } else if is_text(w, "sqrt") {
        Ok(Token::Command(Cmd::Sqrt))
    } else if w.len() > 0 && w[0] == 'r' {
        let count = if w.len() == 1 {
            Some(1i32)
        } else if w.len() == 2 && w[1] == '-' {
            assert(w@.drop_first() =~= seq!['-']);
            Some(-1i32)
        } else {
            proof {
                if w@.len() == 2 {
                    assert(w@.drop_first()[0] != seq!['-'][0]);
                }
            }
            parse_i32_from(w, 1)
        };
        assert(w@.skip(1) =~= w@.drop_first());
        match count {
            Some(n) => Ok(Token::Command(Cmd::Rotate(n))),
            None => Err(CalcError::UnrecognizedToken(text)),
        }
    } else if is_float_literal_text(w) {
        Ok(Token::Number(text))
    } else {
        Err(CalcError::UnrecognizedToken(text))
    }
}

/// The characters `s[lo..hi]`.
fn chars_between(s: &Vec<char>, lo: usize, hi: usize) -> (res: Vec<char>)
    requires
        lo <= hi <= s@.len(),
    ensures
        res@ == s@.subrange(lo as int, hi as int),
{
    let mut res: Vec<char> = Vec::new();
    let mut i = lo;
    while i < hi
        invariant
            lo <= i <= hi <= s@.len(),
            res@ =~= s@.subrange(lo as int, i as int),
        decreases hi - i,
    {
        res.push(s[i]);
        i = i + 1;
    }
    res
}

/// Splits a line into tokens: each word separated by white space is one
/// token, except that `mode` takes the word after it as its argument. A word
/// that is no token gives an `UnrecognizedToken` error in its place.
pub fn parse_line(input: &str) -> (res: Vec<Result<Token, CalcError>>)
    ensures
        token_results_view(res@) == parse_text(input@),
{
    let chars = chars_of(input);
    let bounds = word_bounds(&chars);
    let ghost ws = words(input@);
    let mut tokens: Vec<Result<Token, CalcError>> = Vec::new();
    let mut i: usize = 0;
    assert(ws.skip(0) =~= ws);
    assert(token_results_view(tokens@) =~= Seq::empty());
    assert(parse_words(ws) =~= token_results_view(tokens@) + parse_words(ws.skip(0)));
    while i < bounds.len()
        invariant
            chars@ == input@,
            ws == words(input@),
            bounded_texts(chars@, bounds@) == ws,
            forall|k: int|
                0 <= k < bounds@.len() ==> (#[trigger] bounds@[k]).0 <= bounds@[k].1
                    <= chars@.len(),
            i <= bounds@.len(),
            parse_words(ws) == token_results_view(tokens@) + parse_words(ws.skip(i as int)),
        decreases bounds@.len() - i,
    {
        let ghost rest = ws.skip(i as int);
        let ghost before = tokens@;
        let (start, end) = bounds[i];
        let w = chars_between(&chars, start, end);
        assert(w@ == ws[i as int]);
        assert(rest[0] == ws[i as int]);
        if is_text(&w, "mode") {
            if i + 1 < bounds.len() {
                let (s2, e2) = bounds[i + 1];
                assert(ws[i + 1] == chars@.subrange(s2 as int, e2 as int));
                let arg = String::from_str(input.substring_char(s2, e2));
                tokens.push(Ok(Token::Mode(Some(arg))));
                assert(rest.skip(2) =~= ws.skip(i + 2));
                assert(rest[1] == ws[i + 1]);
                i = i + 2;
            } else {
                tokens.push(Ok(Token::Mode(None)));
                assert(ws.skip(i + 1) =~= Seq::<Seq<char>>::empty());
                i = i + 1;
            }
        } else {
            let text = String::from_str(input.substring_char(start, end));
            let t = classify_word(&w, text);
            tokens.push(t);
            assert(rest.drop_first() =~= ws.skip(i + 1));
            i = i + 1;
        }
        assert(token_results_view(tokens@) =~= token_results_view(before) + seq![
            token_result_view(tokens@.last()),
        ]);
    }
    assert(ws.skip(i as int) =~= Seq::<Seq<char>>::empty());
    assert(token_results_view(tokens@) + Seq::<Result<TokenView, ErrorView>>::empty()
        =~= token_results_view(tokens@));
    tokens
}

} // verus!
