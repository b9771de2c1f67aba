//! Laying out the stack for display, from the text of each value.

use vstd::prelude::*;

use crate::error::{append_decimal, decimal};
use crate::session::DisplayMode;

verus! {

/// The parts joined into one text, with `sep` between each two.
pub open spec fn join(parts: Seq<Seq<char>>, sep: Seq<char>) -> Seq<char>
    decreases parts.len(),
{
    if parts.len() == 0 {
        Seq::empty()
    } else if parts.len() == 1 {
        parts[0]
    } else {
        join(parts.drop_last(), sep) + sep + parts.last()
    }
}

/// The values on one line, in the order given: `[1 2 3]`.
pub open spec fn horizontal_text(values: Seq<Seq<char>>) -> Seq<char> {
    "["@ + join(values, " "@) + "]"@
}

/// The line for the value at index `i` of `n` listed values: the number
/// `n - i` (so the first line has the highest number and the last line 1),
/// the separator, then the value.
pub open spec fn numbered_line(n: nat, i: int, sep: Seq<char>, value: Seq<char>) -> Seq<char> {
    decimal((n - i) as nat) + sep + value
}

/// The values one per line, in the order given, numbered from `n` down to 1.
pub open spec fn numbered_lines(values: Seq<Seq<char>>, sep: Seq<char>) -> Seq<Seq<char>> {
    Seq::new(values.len(), |i: int| numbered_line(values.len(), i, sep, values[i]))
}

/// The values one per line in the order given, numbered from `n` down to 1
/// with `: ` after the number: for `1 2 3`, `3: 1`, `2: 2`, `1: 3`.
pub open spec fn vertical_text(values: Seq<Seq<char>>) -> Seq<char> {
    join(numbered_lines(values, ": "@), "\n"@)
}

/// The stack as the calculator lists it, top first, one value per line,
/// each numbered by its position from the bottom with `. ` after the number:
/// for the stack `1 2 3` (3 on top), `3. 3`, `2. 2`, `1. 1`.
pub open spec fn listing_text(values: Seq<Seq<char>>) -> Seq<char> {
    join(numbered_lines(values.reverse(), ". "@), "\n"@)
}

/// The texts of a sequence of strings.
pub open spec fn texts(values: Seq<String>) -> Seq<Seq<char>> {
    values.map_values(|v: String| v@)
}

/// The stack (given bottom first) as the calculator shows it in the display
/// mode, top first: `[3 2 1]` on one line, or `3. 3`, `2. 2`, `1. 1` one per line.
pub open spec fn stack_text(values: Seq<Seq<char>>, mode: DisplayMode) -> Seq<char> {
    match mode {
        DisplayMode::Horizontal => horizontal_text(values.reverse()),
        DisplayMode::Vertical => listing_text(values),
    }
}

/// Lays out the values on one line, in the order given: `[1 2 3]`.
pub fn format_stack_horizontal(values: &Vec<String>) -> (res: String)
    ensures
        res@ == horizontal_text(texts(values@)),
{
    let mut out = String::from_str("[");
    let mut i: usize = 0;
    while i < values.len()
        invariant
            i <= values@.len(),
            out@ == "["@ + join(texts(values@).take(i as int), " "@),
        decreases values@.len() - i,
    {
        let ghost before = texts(values@).take(i as int);
        let ghost after = texts(values@).take(i + 1);
        assert(after.drop_last() =~= before);
        assert(after.last() == values@[i as int]@);
        if i > 0 {
            out.append(" ");
        } else {
            assert(before =~= Seq::<Seq<char>>::empty());
        }
        out.append(values[i].as_str());
        i = i + 1;
    }
    assert(texts(values@).take(i as int) =~= texts(values@));
    out.append("]");
    out
}

/// The values one per line in the order given, numbered from `n` down to 1
/// with `sep` after the number.
fn format_numbered(values: &Vec<String>, sep: &str) -> (res: String)
    ensures
        res@ == join(numbered_lines(texts(values@), sep@), "\n"@),
{
    let n = values.len();
    let ghost lines = numbered_lines(texts(values@), sep@);
    let mut out = String::new();
    let mut i: usize = 0;
    while i < n
        invariant
            n == values@.len(),
            i <= n,
            lines == numbered_lines(texts(values@), sep@),
            out@ == join(lines.take(i as int), "\n"@),
        decreases n - i,
    {
        let ghost before = lines.take(i as int);
        let ghost after = lines.take(i + 1);
        assert(after.drop_last() =~= before);
        if i > 0 {
            out.append("\n");
        } else {
            assert(before =~= Seq::<Seq<char>>::empty());
        }
        let ghost start = out@;
        append_decimal(&mut out, n - i);
        out.append(sep);
        out.append(values[i].as_str());
        assert(after.last() == numbered_line(n as nat, i as int, sep@, values@[i as int]@));
        assert(out@ == start + after.last());
        i = i + 1;
    }
    assert(lines.take(n as int) =~= lines);
    out
}

/// Lays out the values one per line in the order given, numbered from `n`
/// down to 1 with `: ` after the number.
pub fn format_stack_vertical(values: &Vec<String>) -> (res: String)
    ensures
        res@ == vertical_text(texts(values@)),
{
    format_numbered(values, ": ")
}

/// The strings in reverse order.
fn reversed(values: &Vec<String>) -> (res: Vec<String>)
    ensures
        texts(res@) == texts(values@).reverse(),
{
    let n = values.len();
    let mut res: Vec<String> = Vec::new();
    let mut i: usize = 0;
    while i < n
        invariant
            n == values@.len(),
            i <= n,
            res@.len() == i,
            forall|k: int| 0 <= k < i ==> (#[trigger] res@[k])@ == values@[n - 1 - k]@,
        decreases n - i,
    {
        res.push(values[n - 1 - i].clone());
        i = i + 1;
    }
    assert(texts(res@) =~= texts(values@).reverse());
    res
}

/// Shows the stack, given the text of each value bottom first, in the
/// display mode, top first.
pub fn format_stack(values: &Vec<String>, mode: DisplayMode) -> (res: String)
    ensures
        res@ == stack_text(texts(values@), mode),
{
    let top_first = reversed(values);
    match mode {
        DisplayMode::Horizontal => format_stack_horizontal(&top_first),
        DisplayMode::Vertical => format_numbered(&top_first, ". "),
    }
}

} // verus!
