//! What the functions on text promise: how their results are made up of their inputs.

use vstd::prelude::*;
use vstd::string::*;
use vstd::utf8::*;
use crate::json::{JsonView, member, member_from};
use crate::text::{
    begins_with, blank, decimal, either, fitting, has_char, has_text, is_white, joined,
    lemma_decimal, lemma_fitting, lemma_split_nonempty, lemma_trim_end, lemma_trim_start,
    lemma_utf8_len_take, lines_of, lines_upto, lowered, occurs_at, shortened, split_at_either,
    split_by, text_before, trim_start, trimmed, utf8_len, with_replaced, words,
};

verus! {

/// White space is these characters, and no others.
pub proof fn lemma_white_space(c: char)
    ensures
        is_white(c) <==> (c == '\t' || c == '\n' || c == '\u{b}' || c == '\u{c}' || c == '\r' || c
            == ' ' || c == '\u{85}' || c == '\u{a0}' || c == '\u{1680}' || ('\u{2000}' <= c && c
            <= '\u{200a}') || c == '\u{2028}' || c == '\u{2029}' || c == '\u{202f}' || c
            == '\u{205f}' || c == '\u{3000}'),
{
}

/// A text is blank if it is empty, one character long and white, or made of blank texts.
pub proof fn lemma_blank_parts(a: Seq<char>, b: Seq<char>, c: char)
    ensures
        blank(Seq::<char>::empty()),
        blank(seq![c]) <==> is_white(c),
        blank(a + b) <==> blank(a) && blank(b),
{
    assert(seq![c][0] == c);
    if blank(a + b) {
        assert forall|i: int| 0 <= i < a.len() implies is_white(#[trigger] a[i]) by {
            assert((a + b)[i] == a[i]);
        }
        assert forall|i: int| 0 <= i < b.len() implies is_white(#[trigger] b[i]) by {
            assert((a + b)[a.len() + i] == b[i]);
        }
    }
}

/// Trimming takes blank ends off a text, all of them, and nothing else.
pub proof fn lemma_trimmed_middle(s: Seq<char>)
    ensures
        exists|a: Seq<char>, b: Seq<char>|
            blank(a) && blank(b) && s == #[trigger] (a + trimmed(s) + b),
        trimmed(s).len() > 0 ==> !is_white(trimmed(s)[0]) && !is_white(trimmed(s).last()),
        trimmed(s).len() == 0 <==> blank(s),
{
    lemma_trim_start(s);
    let m = trim_start(s);
    lemma_trim_end(m);
    let t = trimmed(s);
    let a = s.take(s.len() - m.len());
    let b = m.skip(t.len() as int);
    assert(s =~= a + m);
    assert(m =~= t + b);
    assert(s =~= a + t + b);
    assert forall|i: int| 0 <= i < b.len() implies is_white(#[trigger] b[i]) by {
        assert(b[i] == m[t.len() + i]);
    }
    assert(blank(a) && blank(b) && s == a + trimmed(s) + b);
    if t.len() > 0 {
        assert(t[0] == m[0]);
        assert(s[a.len() as int] == t[0]);
    } else {
        assert forall|i: int| 0 <= i < s.len() implies is_white(#[trigger] s[i]) by {
            if i >= a.len() {
                assert(s[i] == m[i - a.len()]);
            }
        }
    }
}

/// A text with nothing blank at its ends is trimmed already.
pub proof fn lemma_trimmed_already(s: Seq<char>)
    requires
        s.len() > 0 ==> !is_white(s[0]) && !is_white(s.last()),
    ensures
        trimmed(s) == s,
{
}

/// A text begins with another if something can be put behind the other to give the text.
pub proof fn lemma_begins_with(s: Seq<char>, part: Seq<char>)
    ensures
        begins_with(s, part) <==> exists|rest: Seq<char>| s == #[trigger] (part + rest),
{
    if begins_with(s, part) {
        let rest = s.skip(part.len() as int);
        assert(s =~= part + rest);
    }
    if exists|rest: Seq<char>| s == #[trigger] (part + rest) {
        let rest = choose|rest: Seq<char>| s == #[trigger] (part + rest);
        assert(s.take(part.len() as int) =~= part);
    }
}

/// A text holds another if something can be put around the other to give the text.
pub proof fn lemma_has_text(s: Seq<char>, part: Seq<char>)
    ensures
        has_text(s, part) <==> exists|a: Seq<char>, b: Seq<char>| s == #[trigger] (a + part + b),
{
    if has_text(s, part) {
        let at = choose|at: int| #[trigger] occurs_at(s, part, at);
        let a = s.take(at);
        let b = s.skip(at + part.len());
        assert(s =~= a + part + b);
    }
    if exists|a: Seq<char>, b: Seq<char>| s == #[trigger] (a + part + b) {
        let (a, b) = choose|a: Seq<char>, b: Seq<char>| s == #[trigger] (a + part + b);
        assert(s.subrange(a.len() as int, (a.len() + part.len()) as int) =~= part);
        assert(occurs_at(s, part, a.len() as int));
    }
}

/// A text that is put around another holds all that the other holds.
pub proof fn lemma_has_text_within(a: Seq<char>, s: Seq<char>, b: Seq<char>, part: Seq<char>)
    requires
        has_text(s, part),
    ensures
        has_text(a + s + b, part),
{
    let at = choose|at: int| #[trigger] occurs_at(s, part, at);
    assert((a + s + b).subrange(a.len() + at, a.len() + at + part.len()) =~= s.subrange(
        at,
        at + part.len(),
    ));
    assert(occurs_at(a + s + b, part, a.len() + at));
}

/// Making a text small changes `A` to `Z` only, one character for one, into the letters
/// that stand in the same place of `a` to `z`.
pub proof fn lemma_lowered(s: Seq<char>, i: int)
    requires
        0 <= i < s.len(),
    ensures
        lowered(s).len() == s.len(),
        'A' <= s[i] && s[i] <= 'Z' ==> lowered(s)[i] as int - 'a' as int == s[i] as int - 'A' as int,
        !('A' <= s[i] && s[i] <= 'Z') ==> lowered(s)[i] == s[i],
        lowered(lowered(s)) == lowered(s),
{
    assert(lowered(lowered(s)) =~= lowered(s));
}

/// Replacing a character leaves none of it, and every other character where it was.
pub proof fn lemma_replaced(s: Seq<char>, from: char, to: char, i: int)
    requires
        0 <= i < s.len(),
    ensures
        with_replaced(s, from, to).len() == s.len(),
        s[i] == from ==> with_replaced(s, from, to)[i] == to,
        s[i] != from ==> with_replaced(s, from, to)[i] == s[i],
        from != to ==> !has_char(with_replaced(s, from, to), from),
        !has_char(s, from) ==> with_replaced(s, from, to) == s,
{
    if !has_char(s, from) {
        assert(with_replaced(s, from, to) =~= s);
    }
}

/// The pieces of a text hold none of the characters that part them, and put together
/// again they give the text.
pub proof fn lemma_split_and_joined(s: Seq<char>, c: char)
    ensures
        joined(split_at_either(s, c, c), seq![c]) == s,
    decreases s.len(),
{
    let f = either(c, c);
    let parts = split_at_either(s, c, c);
    if s.len() > 0 {
        let before = split_at_either(s.drop_last(), c, c);
        lemma_split_and_joined(s.drop_last(), c);
        lemma_split_nonempty(s.drop_last(), f);
        let x = s.last();
        assert(s =~= s.drop_last().push(x));
        if x == c {
            assert(parts.drop_last() =~= before);
            assert(joined(parts, seq![c]) =~= joined(before, seq![c]) + seq![c] + Seq::empty());
        } else {
            assert(parts.drop_last() =~= before.drop_last());
            assert(parts.last() =~= before.last().push(x));
            if before.len() == 1 {
                assert(joined(parts, seq![c]) =~= before[0].push(x));
            } else {
                assert(joined(parts, seq![c]) =~= joined(before, seq![c]).push(x));
            }
        }
    } else {
        assert(parts[0] =~= s);
    }
}

/// No piece of a text holds one of the characters that part it.
pub proof fn lemma_pieces_are_free(s: Seq<char>, a: char, b: char, k: int)
    requires
        0 <= k < split_at_either(s, a, b).len(),
    ensures
        !has_char(split_at_either(s, a, b)[k], a),
        !has_char(split_at_either(s, a, b)[k], b),
    decreases s.len(),
{
    let f = either(a, b);
    if s.len() > 0 {
        let before = split_at_either(s.drop_last(), a, b);
        lemma_split_nonempty(s.drop_last(), f);
        let x = s.last();
        if x == a || x == b {
            if k < before.len() {
                lemma_pieces_are_free(s.drop_last(), a, b, k);
            }
        } else {
            lemma_pieces_are_free(s.drop_last(), a, b, k);
            let piece = split_at_either(s, a, b)[k];
            if k == before.len() - 1 {
                assert(piece == before.last().push(x));
                assert forall|i: int| 0 <= i < piece.len() implies #[trigger] piece[i] != a
                    && piece[i] != b by {
                    if i < before[k].len() {
                        assert(before[k][i] == piece[i]);
                    }
                }
            }
        }
    }
}

/// The first difference decides which text goes before, and a text goes before all that
/// go on from it.
pub proof fn lemma_first_difference_decides(
    p: Seq<char>,
    x: char,
    y: char,
    a: Seq<char>,
    b: Seq<char>,
)
    ensures
        text_before(p, p + seq![x] + a),
        x < y ==> text_before(p + seq![x] + a, p + seq![y] + b),
        x > y ==> !text_before(p + seq![x] + a, p + seq![y] + b),
    decreases p.len(),
{
    let s = p + seq![x] + a;
    let t = p + seq![y] + b;
    if p.len() > 0 {
        lemma_first_difference_decides(p.drop_first(), x, y, a, b);
        assert(s.drop_first() =~= p.drop_first() + seq![x] + a);
        assert(t.drop_first() =~= p.drop_first() + seq![y] + b);
        assert(s[0] == p[0] && t[0] == p[0]);
    } else {
        assert(s[0] == x && t[0] == y);
    }
}

/// A number is written with the digits that it has, the last one last.
pub proof fn lemma_decimal_digits(n: nat, d: nat)
    requires
        d < 10,
    ensures
        decimal(d).len() == 1,
        decimal(d)[0] as int == '0' as int + d,
        n > 0 ==> decimal(10 * n + d) == decimal(n) + decimal(d),
{
    if n > 0 {
        let m = 10 * n + d;
        assert(m / 10 == n && m % 10 == d) by (nonlinear_arith)
            requires
                m == 10 * n + d,
                d < 10,
        ;
        assert(decimal(m) =~= decimal(n) + decimal(d));
    }
}

/// Different numbers are written differently.
pub proof fn lemma_decimal_is_injective(a: nat, b: nat)
    requires
        decimal(a) == decimal(b),
    ensures
        a == b,
    decreases a,
{
    lemma_decimal(a / 10);
    lemma_decimal(b / 10);
    if a < 10 {
        if b >= 10 {
            assert(decimal(b).len() > 1);
        } else {
            lemma_decimal_digits(0, a);
            lemma_decimal_digits(0, b);
            assert(decimal(a)[0] == decimal(b)[0]);
        }
    } else {
        if b < 10 {
            assert(decimal(a).len() > 1);
        } else {
            lemma_decimal_digits(0, a % 10);
            lemma_decimal_digits(0, b % 10);
            assert(decimal(a).last() == decimal(a % 10)[0]);
            assert(decimal(b).last() == decimal(b % 10)[0]);
            assert(decimal(a).last() == decimal(b).last());
            assert(decimal(a).drop_last() =~= decimal(a / 10));
            assert(decimal(b).drop_last() =~= decimal(b / 10));
            lemma_decimal_is_injective(a / 10, b / 10);
        }
    }
}

proof fn lemma_lines_upto(s: Seq<char>, n: int)
    requires
        0 <= n <= s.len(),
    ensures
        0 <= lines_upto(s, n).1 <= n,
        forall|i: int| lines_upto(s, n).1 <= i < n ==> #[trigger] s[i] != '\n',
        forall|k: int|
            0 <= k < lines_upto(s, n).0.len() ==> !has_char(#[trigger] lines_upto(s, n).0[k], '\n'),
        (forall|i: int| 0 <= i < n ==> #[trigger] s[i] != '\n') ==> lines_upto(s, n).1 == 0
            && lines_upto(s, n).0.len() == 0,
    decreases n,
{
    if n > 0 {
        lemma_lines_upto(s, n - 1);
        let (done, from) = lines_upto(s, n - 1);
        let now = lines_upto(s, n).0;
        assert forall|k: int| 0 <= k < now.len() implies !has_char(#[trigger] now[k], '\n') by {
            if k < done.len() {
                assert(now[k] == done[k]);
            } else {
                assert forall|i: int| 0 <= i < now[k].len() implies #[trigger] now[k][i] != '\n' by {
                    assert(now[k][i] == s[from + i]);
                }
            }
        }
    }
}

/// No line holds a line break, and a text without a line break is one line.
pub proof fn lemma_lines_hold_no_break(s: Seq<char>, k: int)
    ensures
        0 <= k < lines_of(s).len() ==> !has_char(lines_of(s)[k], '\n'),
        s.len() > 0 && !has_char(s, '\n') ==> lines_of(s) == seq![s],
        s.len() == 0 ==> lines_of(s).len() == 0,
{
    lemma_lines_upto(s, s.len() as int);
    let (done, from) = lines_upto(s, s.len() as int);
    if from < s.len() {
        let last = s.subrange(from, s.len() as int);
        assert forall|i: int| 0 <= i < last.len() implies #[trigger] last[i] != '\n' by {
            assert(last[i] == s[from + i]);
        }
    }
    if s.len() > 0 && !has_char(s, '\n') {
        assert forall|i: int| 0 <= i < s.len() implies #[trigger] s[i] != '\n' by {}
        assert(from == 0 && done.len() == 0);
        assert(s.subrange(0, s.len() as int) =~= s);
        assert(lines_of(s) =~= seq![s]);
    }
}

/// A member of a record is the first of its name.
pub proof fn lemma_member_is_the_first(
    members: Seq<(Seq<char>, Seq<char>)>,
    key: Seq<char>,
    i: int,
)
    requires
        0 <= i < members.len(),
        members[i].0 == key,
        forall|j: int| 0 <= j < i ==> (#[trigger] members[j]).0 != key,
    ensures
        member(JsonView::Record(members), key) == Some(members[i].1),
{
    lemma_member_from(members, key, 0, i);
}

proof fn lemma_member_from(
    members: Seq<(Seq<char>, Seq<char>)>,
    key: Seq<char>,
    from: int,
    i: int,
)
    requires
        0 <= from <= i < members.len(),
        members[i].0 == key,
        forall|j: int| from <= j < i ==> (#[trigger] members[j]).0 != key,
    ensures
        member_from(members, key, from) == Some(members[i].1),
    decreases i - from,
{
    if from < i {
        assert(members[from].0 != key);
        lemma_member_from(members, key, from + 1, i);
    }
}

/// A record has no member of a name that it does not hold.
pub proof fn lemma_no_such_member(members: Seq<(Seq<char>, Seq<char>)>, key: Seq<char>, from: int)
    requires
        0 <= from,
        forall|j: int| from <= j < members.len() ==> (#[trigger] members[j]).0 != key,
    ensures
        member_from(members, key, from) is None,
    decreases members.len() - from,
{
    if from < members.len() {
        assert(members[from].0 != key);
        lemma_no_such_member(members, key, from + 1);
    }
}

/// What is shortened is the text itself where it fits; else it is the longest beginning
/// that fits, with a mark behind it.
pub proof fn lemma_shortened(s: Seq<char>, max: nat, k: int)
    requires
        0 <= k <= s.len(),
    ensures
        utf8_len(s) <= max ==> shortened(s, max) == s,
        utf8_len(s) > max ==> exists|n: int|
            0 <= n < s.len() && shortened(s, max) == #[trigger] s.take(n) + "..."@ && utf8_len(
                s.take(n),
            ) <= max && (utf8_len(s.take(k)) <= max ==> k <= n),
{
    if utf8_len(s) > max {
        lemma_fitting(s, max);
        let n = fitting(s, max) as int;
        if n == s.len() {
            assert(s.take(n) =~= s);
        }
        if k > n {
            assert(s.take(k).take(n + 1) =~= s.take(n + 1));
            lemma_utf8_len_take(s.take(k), n + 1);
        }
        assert(shortened(s, max) == s.take(n) + "..."@);
    }
}

proof fn lemma_split_pieces(s: Seq<char>, sep: spec_fn(char) -> bool, k: int, i: int)
    requires
        0 <= k < split_by(s, sep).len(),
        0 <= i < split_by(s, sep)[k].len(),
    ensures
        !sep(split_by(s, sep)[k][i]),
    decreases s.len(),
{
    if s.len() > 0 {
        let before = split_by(s.drop_last(), sep);
        lemma_split_nonempty(s.drop_last(), sep);
        if k < before.len() {
            if i < before[k].len() {
                lemma_split_pieces(s.drop_last(), sep, k, i);
            }
        }
    }
}

/// Words hold no white space, and none of them is empty.
pub proof fn lemma_words(s: Seq<char>, k: int, i: int)
    requires
        0 <= k < words(s).len(),
    ensures
        words(s)[k].len() > 0,
        0 <= i < words(s)[k].len() ==> !is_white(words(s)[k][i]),
{
    let sep = |c: char| is_white(c);
    let pieces = split_by(s, sep);
    let f = |w: Seq<char>| w.len() > 0;
    let told = pieces.filter(f);
    pieces.filter_lemma(f);
    assert(words(s) =~= told);
    assert(f(told[k]));
    assert(told.contains(told[k]));
    pieces.lemma_filter_contains_rev(f, told[k]);
    let j = choose|j: int| 0 <= j < pieces.len() && pieces[j] == told[k];
    if 0 <= i < told[k].len() {
        lemma_split_pieces(s, sep, j, i);
    }
}

proof fn lemma_no_line_yet(s: Seq<char>, n: int)
    requires
        0 <= n <= s.len(),
        forall|i: int| 0 <= i < n ==> #[trigger] s[i] != '\n',
    ensures
        lines_upto(s, n).0.len() == 0,
        lines_upto(s, n).1 == 0,
    decreases n,
{
    if n > 0 {
        lemma_no_line_yet(s, n - 1);
    }
}

/// A break at the end of a line opens no further line, and what goes with it is no part of
/// the line.
pub proof fn lemma_line_ends(s: Seq<char>)
    requires
        !has_char(s, '\n'),
    ensures
        s.len() == 0 || s.last() != '\r' ==> lines_of(s.push('\n')) == seq![s],
        lines_of(s.push('\r').push('\n')) == seq![s],
{
    let a = s.push('\n');
    assert forall|i: int| 0 <= i < s.len() implies #[trigger] a[i] != '\n' by {
        assert(s[i] != '\n');
    }
    lemma_no_line_yet(a, s.len() as int);
    assert(a[s.len() as int] == '\n');
    if s.len() == 0 || s.last() != '\r' {
        assert(a.subrange(0, s.len() as int) =~= s);
        assert(lines_of(a) =~= seq![s]);
    }
    let b = s.push('\r').push('\n');
    assert forall|i: int| 0 <= i < s.len() + 1 implies #[trigger] b[i] != '\n' by {
        if i < s.len() {
            assert(s[i] != '\n');
        }
    }
    lemma_no_line_yet(b, s.len() as int + 1);
    assert(b[s.len() as int] == '\r');
    assert(b[s.len() as int + 1] == '\n');
    assert(b.subrange(0, s.len() as int) =~= s);
    assert(lines_of(b) =~= seq![s]);
}

} // verus!
