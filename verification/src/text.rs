//! Strings as sequences of characters: the small vocabulary that the contracts of
//! the other modules are written in, with an executable counterpart for each word.

use vstd::prelude::*;
use vstd::string::*;
use vstd::utf8::*;
use crate::sorting::lemma_filter_last;

verus! {

/// `String::push` appends one character at the end.
pub assume_specification[ String::push ](s: &mut String, ch: char)
    ensures
        final(s)@ == old(s)@.push(ch),
;

/// What `{:?}` prints for a string: the string in quotes, with the characters escaped
/// that `Debug` escapes.
pub uninterp spec fn debug_string(s: Seq<char>) -> Seq<char>;

/// Prints a string with `Debug`. The result is the function [`debug_string`] of the
/// string; which characters are escaped is not stated.
#[verifier::external_body]
pub(crate) fn debug_quoted(s: &str) -> (r: String)
    ensures
        r@ == debug_string(s@),
{
    format!("{:?}", s)
}

/// What `String::from_utf8_lossy` makes of bytes: text, with a mark in place of what is
/// not UTF-8.
pub uninterp spec fn lossy_decoded(bytes: Seq<u8>) -> Seq<char>;

/// Decodes bytes with `String::from_utf8_lossy`. The result is the function
/// [`lossy_decoded`] of the bytes, and bytes that are UTF-8 are decoded as they stand;
/// where the marks are put is not stated.
#[verifier::external_body]
pub(crate) fn decode_lossy(bytes: &[u8]) -> (r: String)
    ensures
        r@ == lossy_decoded(bytes@),
        valid_utf8(bytes@) ==> r@ == decode_utf8(bytes@),
{
    String::from_utf8_lossy(bytes).into_owned()
}

/// What `{:?}` prints for a variant that holds a string.
pub open spec fn debug_variant(name: Seq<char>, held: Seq<char>) -> Seq<char> {
    name + "("@ + debug_string(held) + ")"@
}

/// Prints a variant that holds a string with `Debug`.
pub fn debug_variant_text(name: &str, held: &str) -> (r: String)
    ensures
        r@ == debug_variant(name@, held@),
{
    plus(name, "(").concat(debug_quoted(held).as_str()).concat(")")
}

/// The number of bytes of all strings of a list.
pub open spec fn total_len(parts: Seq<Seq<char>>) -> nat
    decreases parts.len(),
{
    if parts.len() == 0 {
        0
    } else {
        total_len(parts.drop_last()) + utf8_len(parts.last())
    }
}

/// The characters of each string of a list.
pub open spec fn texts(list: Seq<String>) -> Seq<Seq<char>> {
    list.map_values(|s: String| s@)
}

/// The contents of an optional string.
pub open spec fn opt_text(value: Option<String>) -> Option<Seq<char>> {
    match value {
        Some(s) => Some(s@),
        None => None,
    }
}

/// The number of bytes that the UTF-8 encoding of `s` takes.
pub open spec fn utf8_len(s: Seq<char>) -> nat {
    encode_utf8(s).len()
}

/// The number of bytes that the UTF-8 encoding of `c` takes.
pub open spec fn char_width(c: char) -> nat {
    encode_scalar(c as u32).len()
}

/// The Unicode characters with the White_Space property.
pub open spec fn is_white(c: char) -> bool {
    let n = c as u32;
    ||| 0x9 <= n <= 0xd
    ||| n == 0x20
    ||| n == 0x85
    ||| n == 0xa0
    ||| n == 0x1680
    ||| 0x2000 <= n <= 0x200a
    ||| n == 0x2028
    ||| n == 0x2029
    ||| n == 0x202f
    ||| n == 0x205f
    ||| n == 0x3000
}

/// Nothing but white space.
pub open spec fn blank(s: Seq<char>) -> bool {
    forall|i: int| 0 <= i < s.len() ==> is_white(#[trigger] s[i])
}

/// `s` without its leading white space.
pub open spec fn trim_start(s: Seq<char>) -> Seq<char>
    decreases s.len(),
{
    if s.len() > 0 && is_white(s[0]) {
        trim_start(s.drop_first())
    } else {
        s
    }
}

/// `s` without its trailing white space.
pub open spec fn trim_end(s: Seq<char>) -> Seq<char>
    decreases s.len(),
{
    if s.len() > 0 && is_white(s.last()) {
        trim_end(s.drop_last())
    } else {
        s
    }
}

/// `s` without white space at either end.
pub open spec fn trimmed(s: Seq<char>) -> Seq<char> {
    trim_end(trim_start(s))
}

/// `part` occurs in `s` at position `at`.
pub open spec fn occurs_at(s: Seq<char>, part: Seq<char>, at: int) -> bool {
    0 <= at && at + part.len() <= s.len() && s.subrange(at, at + part.len()) == part
}

/// `part` occurs somewhere in `s`.
pub open spec fn has_text(s: Seq<char>, part: Seq<char>) -> bool {
    exists|at: int| #[trigger] occurs_at(s, part, at)
}

/// `s` begins with `part`.
pub open spec fn begins_with(s: Seq<char>, part: Seq<char>) -> bool {
    part.len() <= s.len() && s.take(part.len() as int) == part
}

/// An ASCII capital letter becomes the small letter; every other character stays.
pub open spec fn lower_char(c: char) -> char {
    if 'A' <= c && c <= 'Z' {
        ((c as u32 + 32) as u32) as char
    } else {
        c
    }
}

/// `s` with its ASCII capital letters made small.
pub open spec fn lowered(s: Seq<char>) -> Seq<char> {
    s.map_values(|c: char| lower_char(c))
}

/// `s` with every `from` replaced by `to`.
pub open spec fn with_replaced(s: Seq<char>, from: char, to: char) -> Seq<char> {
    s.map_values(|c: char| if c == from { to } else { c })
}

/// The strings of `parts` one after the other, with `sep` between neighbours.
pub open spec fn joined(parts: Seq<Seq<char>>, sep: Seq<char>) -> Seq<char>
    decreases parts.len(),
{
    if parts.len() == 0 {
        seq![]
    } else if parts.len() == 1 {
        parts[0]
    } else {
        joined(parts.drop_last(), sep) + sep + parts.last()
    }
}

/// The pieces of `s` between the characters that are separators.
pub open spec fn split_by(s: Seq<char>, sep: spec_fn(char) -> bool) -> Seq<Seq<char>>
    decreases s.len(),
{
    if s.len() == 0 {
        seq![seq![]]
    } else {
        let before = split_by(s.drop_last(), sep);
        if sep(s.last()) {
            before.push(seq![])
        } else {
            before.drop_last().push(before.last().push(s.last()))
        }
    }
}

/// The characters `a` and `b`.
pub open spec fn either(a: char, b: char) -> spec_fn(char) -> bool {
    |c: char| c == a || c == b
}

/// The pieces of `s` between the characters `a` and `b`.
pub open spec fn split_at_either(s: Seq<char>, a: char, b: char) -> Seq<Seq<char>> {
    split_by(s, either(a, b))
}

/// The finished lines among the first `n` characters of `s`, and where the line that
/// is not finished begins. A line ends with `\n` or `\r\n`, which are not part of it.
pub open spec fn lines_upto(s: Seq<char>, n: int) -> (Seq<Seq<char>>, int)
    decreases n,
{
    if n <= 0 {
        (seq![], 0)
    } else {
        let (done, from) = lines_upto(s, n - 1);
        if s[n - 1] == '\n' {
            let to = if from < n - 1 && s[n - 2] == '\r' {
                n - 2
            } else {
                n - 1
            };
            (done.push(s.subrange(from, to)), n)
        } else {
            (done, from)
        }
    }
}

/// The lines of `s`. What follows the last line break is a line if it is not empty.
pub open spec fn lines_of(s: Seq<char>) -> Seq<Seq<char>> {
    let (done, from) = lines_upto(s, s.len() as int);
    if from < s.len() {
        done.push(s.subrange(from, s.len() as int))
    } else {
        done
    }
}

/// The words of `s`: its longest runs without white space.
pub open spec fn words(s: Seq<char>) -> Seq<Seq<char>> {
    split_by(s, |c: char| is_white(c)).filter(|w: Seq<char>| w.len() > 0)
}

/// `a` stands before `b` in the order of their first different characters, where the
/// end of a string stands before every character.
pub open spec fn text_before(a: Seq<char>, b: Seq<char>) -> bool
    decreases a.len(),
{
    if b.len() == 0 {
        false
    } else if a.len() == 0 {
        true
    } else if a[0] != b[0] {
        a[0] < b[0]
    } else {
        text_before(a.drop_first(), b.drop_first())
    }
}

/// An ASCII letter or digit.
pub open spec fn is_alnum(c: char) -> bool {
    ('a' <= c && c <= 'z') || ('A' <= c && c <= 'Z') || ('0' <= c && c <= '9')
}

/// `s` holds the character `c`.
pub open spec fn has_char(s: Seq<char>, c: char) -> bool {
    exists|i: int| 0 <= i < s.len() && #[trigger] s[i] == c
}

/// The decimal digit for a number below ten.
pub open spec fn digit_char(d: nat) -> char {
    ((48 + d) as u32) as char
}

/// `n` in decimal, without leading zeros.
pub open spec fn decimal(n: nat) -> Seq<char>
    decreases n,
{
    if n < 10 {
        seq![digit_char(n)]
    } else {
        decimal(n / 10).push(digit_char(n % 10))
    }
}

/// The small hexadecimal digit for a number below sixteen.
pub open spec fn hex_char(d: nat) -> char {
    if d < 10 {
        digit_char(d)
    } else {
        ((87 + d) as u32) as char
    }
}

/// The last `width` hexadecimal digits of `n`, with leading zeros.
pub open spec fn hex_digits(n: nat, width: nat) -> Seq<char>
    decreases width,
{
    if width == 0 {
        seq![]
    } else {
        hex_digits(n / 16, (width - 1) as nat).push(hex_char(n % 16))
    }
}

/// How many leading characters of `s` fit in `max` bytes of UTF-8.
pub open spec fn fitting(s: Seq<char>, max: nat) -> nat
    decreases s.len(),
{
    if s.len() == 0 || char_width(s[0]) > max {
        0
    } else {
        1 + fitting(s.drop_first(), (max - char_width(s[0])) as nat)
    }
}

/// The longest prefix of `s` that fits in `max` bytes of UTF-8.
pub open spec fn fitting_prefix(s: Seq<char>, max: nat) -> Seq<char> {
    s.take(fitting(s, max) as int)
}

/// Cutting `s` after `at` bytes falls between two characters.
pub open spec fn cuts_between_chars(s: Seq<char>, at: nat) -> bool {
    utf8_len(fitting_prefix(s, at)) == at
}

// ---------------------------------------------------------------------------
// Facts

/// The encoding of a concatenation is the concatenation of the encodings.
pub proof fn lemma_encode_concat(a: Seq<char>, b: Seq<char>)
    ensures
        encode_utf8(a + b) == encode_utf8(a) + encode_utf8(b),
    decreases a.len(),
{
    if a.len() == 0 {
        assert(a + b =~= b);
        assert(encode_utf8(a) =~= seq![]);
        assert(encode_utf8(a) + encode_utf8(b) =~= encode_utf8(b));
    } else {
        assert((a + b).drop_first() =~= a.drop_first() + b);
        lemma_encode_concat(a.drop_first(), b);
        assert(encode_utf8(a + b) =~= encode_utf8(a) + encode_utf8(b));
    }
}

/// Byte lengths add up under concatenation.
pub proof fn lemma_utf8_len_concat(a: Seq<char>, b: Seq<char>)
    ensures
        utf8_len(a + b) == utf8_len(a) + utf8_len(b),
{
    lemma_encode_concat(a, b);
}

/// A character more is its width more.
pub proof fn lemma_utf8_len_push(s: Seq<char>, c: char)
    ensures
        utf8_len(s.push(c)) == utf8_len(s) + char_width(c),
{
    assert(s.push(c) =~= s + seq![c]);
    lemma_utf8_len_concat(s, seq![c]);
    reveal_with_fuel(encode_utf8, 2);
    assert(seq![c].drop_first() =~= seq![]);
    assert(encode_utf8(seq![c]) =~= encode_scalar(c as u32));
}

/// A string of ASCII characters has as many bytes as characters.
pub proof fn lemma_ascii_utf8_len(s: Seq<char>)
    requires
        is_ascii_chars(s),
    ensures
        utf8_len(s) == s.len(),
{
    is_ascii_chars_encode_utf8(s);
}

/// Every prefix has no more bytes than the whole.
pub proof fn lemma_utf8_len_take(s: Seq<char>, k: int)
    requires
        0 <= k <= s.len(),
    ensures
        utf8_len(s.take(k)) <= utf8_len(s),
{
    assert(s =~= s.take(k) + s.skip(k));
    lemma_utf8_len_concat(s.take(k), s.skip(k));
}

/// `fitting_prefix` is a prefix within the limit, and the longest such prefix.
pub proof fn lemma_fitting(s: Seq<char>, max: nat)
    ensures
        fitting(s, max) <= s.len(),
        utf8_len(fitting_prefix(s, max)) <= max,
        fitting(s, max) < s.len() ==> utf8_len(s.take(fitting(s, max) as int + 1)) > max,
        utf8_len(s) <= max ==> fitting_prefix(s, max) == s,
    decreases s.len(),
{
    if s.len() == 0 {
        assert(fitting_prefix(s, max) =~= s);
    } else if char_width(s[0]) > max {
        assert(s.take(0) =~= seq![]);
        assert(s.take(1) =~= seq![].push(s[0]));
        lemma_utf8_len_push(seq![], s[0]);
        assert(utf8_len(s.take(1)) > max);
        lemma_utf8_len_take(s, 1);
    } else {
        let rest = s.drop_first();
        let left = (max - char_width(s[0])) as nat;
        lemma_fitting(rest, left);
        let k = fitting(rest, left) as int;
        lemma_head_width(s, k + 1);
        assert(s.take(k + 1).drop_first() =~= rest.take(k));
        if k < rest.len() {
            lemma_head_width(s, k + 2);
            assert(s.take(k + 2).drop_first() =~= rest.take(k + 1));
        }
        lemma_head_width(s, s.len() as int);
        assert(s.take(s.len() as int) =~= s);
        if utf8_len(s) <= max {
            assert(utf8_len(rest) <= left);
            assert(rest.take(k) == rest);
            assert(fitting_prefix(s, max) =~= s);
        }
    }
}

proof fn lemma_head_width(s: Seq<char>, k: int)
    requires
        0 < k <= s.len(),
    ensures
        utf8_len(s.take(k)) == char_width(s[0]) + utf8_len(s.take(k).drop_first()),
{
    assert(s.take(k)[0] == s[0]);
}

/// What `trim_start` leaves out is white space; what it leaves begins with none.
pub proof fn lemma_trim_start(s: Seq<char>)
    ensures
        trim_start(s).len() <= s.len(),
        trim_start(s) == s.skip(s.len() - trim_start(s).len()),
        forall|i: int| 0 <= i < s.len() - trim_start(s).len() ==> is_white(#[trigger] s[i]),
        trim_start(s).len() > 0 ==> !is_white(trim_start(s)[0]),
    decreases s.len(),
{
    if s.len() > 0 && is_white(s[0]) {
        let rest = s.drop_first();
        lemma_trim_start(rest);
        let n = s.len() - trim_start(s).len();
        assert(s.skip(n) =~= rest.skip(n - 1));
        assert forall|i: int| 0 <= i < n implies is_white(#[trigger] s[i]) by {
            if i > 0 {
                assert(s[i] == rest[i - 1]);
            }
        }
    } else {
        assert(s.skip(0) =~= s);
    }
}

/// What `trim_end` leaves out is white space; what it leaves ends with none.
pub proof fn lemma_trim_end(s: Seq<char>)
    ensures
        trim_end(s).len() <= s.len(),
        trim_end(s) == s.take(trim_end(s).len() as int),
        forall|i: int| trim_end(s).len() <= i < s.len() ==> is_white(#[trigger] s[i]),
        trim_end(s).len() > 0 ==> !is_white(trim_end(s).last()),
    decreases s.len(),
{
    if s.len() > 0 && is_white(s.last()) {
        lemma_trim_end(s.drop_last());
        assert(s.drop_last().take(trim_end(s).len() as int) =~= s.take(trim_end(s).len() as int));
        assert forall|i: int| trim_end(s).len() <= i < s.len() implies is_white(#[trigger] s[i]) by {
            if i < s.len() - 1 {
                assert(s[i] == s.drop_last()[i]);
            }
        }
    } else {
        assert(s.take(s.len() as int) =~= s);
    }
}

/// Joining without a separator adds nothing.
pub proof fn lemma_joined_without_separator(parts: Seq<Seq<char>>)
    ensures
        utf8_len(joined(parts, Seq::empty())) == total_len(parts),
    decreases parts.len(),
{
    if parts.len() == 1 {
        assert(parts.drop_last() =~= seq![]);
        assert(total_len(parts.drop_last()) == 0);
    } else if parts.len() > 1 {
        lemma_joined_without_separator(parts.drop_last());
        let sep = Seq::<char>::empty();
        assert(joined(parts.drop_last(), sep) + sep =~= joined(parts.drop_last(), sep));
        lemma_utf8_len_concat(joined(parts.drop_last(), sep), parts.last());
    }
}

/// Decimal digits are ASCII digits, and there are at most twenty of them for 64 bits.
pub proof fn lemma_decimal(n: nat)
    ensures
        decimal(n).len() > 0,
        forall|i: int| 0 <= i < decimal(n).len() ==> '0' <= #[trigger] decimal(n)[i] && decimal(
            n,
        )[i] <= '9',
        n < 10 ==> decimal(n).len() == 1,
        n <= u64::MAX ==> decimal(n).len() <= 20,
    decreases n,
{
    if n >= 10 {
        lemma_decimal(n / 10);
        lemma_decimal_len(n, 20);
    }
}

proof fn lemma_decimal_len(n: nat, k: nat)
    requires
        k > 0,
    ensures
        n < vstd::arithmetic::power::pow(10, k) ==> decimal(n).len() <= k,
        k == 20 && n <= u64::MAX ==> decimal(n).len() <= 20,
    decreases k,
{
    vstd::arithmetic::power::lemma_pow1(10);
    if k > 1 {
        lemma_decimal_len(n / 10, (k - 1) as nat);
        assert(vstd::arithmetic::power::pow(10, k) == 10 * vstd::arithmetic::power::pow(
            10,
            (k - 1) as nat,
        )) by {
            reveal(vstd::arithmetic::power::pow);
        }
    }
    if k == 20 {
        assert(vstd::arithmetic::power::pow(10, 20) == 100_000_000_000_000_000_000) by {
            reveal(vstd::arithmetic::power::pow);
            reveal_with_fuel(vstd::arithmetic::power::pow, 21);
        }
    }
}

/// A text without white space is trimmed already.
pub proof fn lemma_trimmed_same(s: Seq<char>)
    requires
        forall|i: int| 0 <= i < s.len() ==> !is_white(#[trigger] s[i]),
    ensures
        trimmed(s) == s,
{
    if s.len() > 0 {
        assert(!is_white(s[0]));
        assert(!is_white(s[s.len() - 1]));
    }
}

/// A split has at least one piece.
pub proof fn lemma_split_nonempty(s: Seq<char>, sep: spec_fn(char) -> bool)
    ensures
        split_by(s, sep).len() > 0,
    decreases s.len(),
{
    if s.len() > 0 {
        lemma_split_nonempty(s.drop_last(), sep);
    }
}

/// `text_before` is a strict total order.
pub proof fn lemma_text_before(a: Seq<char>, b: Seq<char>, c: Seq<char>)
    ensures
        !text_before(a, a),
        !(text_before(a, b) && text_before(b, a)),
        text_before(a, b) || text_before(b, a) || a == b,
        text_before(a, b) && text_before(b, c) ==> text_before(a, c),
    decreases a.len(),
{
    if a.len() > 0 {
        let b1 = if b.len() > 0 { b.drop_first() } else { b };
        let c1 = if c.len() > 0 { c.drop_first() } else { c };
        lemma_text_before(a.drop_first(), b1, c1);
        if b.len() > 0 && a[0] == b[0] && a.drop_first() == b.drop_first() {
            assert(a =~= seq![a[0]] + a.drop_first());
            assert(b =~= seq![b[0]] + b.drop_first());
        }
    } else if b.len() == 0 {
        assert(a =~= b);
    }
}

// ---------------------------------------------------------------------------
// Executable counterparts

/// The characters of a string.
pub fn chars_of(s: &str) -> (v: Vec<char>)
    ensures
        v@ == s@,
{
    let mut v: Vec<char> = Vec::new();
    for c in it: s.chars()
        invariant
            v@ == it.seq().take(it.index()),
            it.seq() == s@,
    {
        v.push(c);
        assert(it.seq().take(it.index() + 1) =~= it.seq().take(it.index()).push(c));
    }
    assert(s@.take(s@.len() as int) =~= s@);
    v
}

/// The string of the characters `from..to`.
pub fn string_of(v: &Vec<char>, from: usize, to: usize) -> (s: String)
    requires
        from <= to <= v@.len(),
    ensures
        s@ == v@.subrange(from as int, to as int),
{
    let mut s: String = String::new();
    let mut i: usize = from;
    while i < to
        invariant
            from <= i <= to <= v@.len(),
            s@ == v@.subrange(from as int, i as int),
        decreases to - i,
    {
        s.push(v[i]);
        i += 1;
        assert(v@.subrange(from as int, i as int) =~= v@.subrange(from as int, i - 1).push(v@[i - 1]));
    }
    s
}

/// A string of its own with the same characters.
pub fn text(s: &str) -> (r: String)
    ensures
        r@ == s@,
{
    s.to_owned()
}

/// Whether two strings hold the same characters.
pub fn same(a: &str, b: &str) -> (r: bool)
    ensures
        r == (a@ == b@),
{
    a.to_owned() == b.to_owned()
}

/// The number of bytes of a string.
pub fn byte_len(s: &str) -> (n: usize)
    ensures
        n == utf8_len(s@),
{
    s.as_bytes().len()
}

/// `a` followed by `b`.
pub fn plus(a: &str, b: &str) -> (r: String)
    ensures
        r@ == a@ + b@,
{
    a.to_owned().concat(b)
}

fn white(c: char) -> (r: bool)
    ensures
        r == is_white(c),
{
    let n: u32 = c as u32;
    (0x9 <= n && n <= 0xd) || n == 0x20 || n == 0x85 || n == 0xa0 || n == 0x1680 || (0x2000 <= n && n
        <= 0x200a) || n == 0x2028 || n == 0x2029 || n == 0x202f || n == 0x205f || n == 0x3000
}

/// Whether a string holds nothing but white space.
pub fn is_blank(s: &str) -> (r: bool)
    ensures
        r == blank(s@),
{
    let v: Vec<char> = chars_of(s);
    let mut i: usize = 0;
    while i < v.len()
        invariant
            i <= v@.len(),
            v@ == s@,
            forall|j: int| 0 <= j < i ==> is_white(#[trigger] s@[j]),
        decreases v@.len() - i,
    {
        if !white(v[i]) {
            return false;
        }
        i += 1;
    }
    true
}

/// The string without white space at either end.
pub fn trim(s: &str) -> (r: String)
    ensures
        r@ == trimmed(s@),
{
    let v: Vec<char> = chars_of(s);
    let mut from: usize = 0;
    assert(s@.skip(0) =~= s@);
    while from < v.len() && white(v[from])
        invariant
            from <= v@.len(),
            v@ == s@,
            trim_start(s@.skip(from as int)) == trim_start(s@),
        decreases v@.len() - from,
    {
        assert(s@.skip(from as int).drop_first() =~= s@.skip(from + 1));
        from += 1;
    }
    let ghost t = s@.skip(from as int);
    assert(trim_start(s@) == t);
    let mut to: usize = v.len();
    assert(t.take(t.len() as int) =~= t);
    while from < to && white(v[to - 1])
        invariant
            from <= to <= v@.len(),
            v@ == s@,
            t == s@.skip(from as int),
            trim_end(t.take(to - from)) == trim_end(t),
        decreases to,
    {
        assert(t.take(to - from).drop_last() =~= t.take(to - from - 1));
        to -= 1;
    }
    assert(v@.subrange(from as int, to as int) =~= t.take(to - from));
    string_of(&v, from, to)
}

fn matches_at(v: &Vec<char>, part: &Vec<char>, at: usize) -> (r: bool)
    requires
        at + part@.len() <= v@.len(),
    ensures
        r == occurs_at(v@, part@, at as int),
{
    let len: usize = v.len();
    let mut i: usize = 0;
    while i < part.len()
        invariant
            i <= part@.len(),
            at + part@.len() <= v@.len(),
            len == v@.len(),
            forall|j: int| 0 <= j < i ==> v@[at + j] == part@[j],
        decreases part@.len() - i,
    {
        if v[at + i] != part[i] {
            assert(v@.subrange(at as int, at + part@.len())[i as int] == v@[at + i]);
            return false;
        }
        i += 1;
    }
    assert(v@.subrange(at as int, at + part@.len()) =~= part@);
    true
}

/// Whether `part` occurs in `s`.
pub fn contains(s: &str, part: &str) -> (r: bool)
    ensures
        r == has_text(s@, part@),
{
    let v: Vec<char> = chars_of(s);
    let p: Vec<char> = chars_of(part);
    if p.len() > v.len() {
        return false;
    }
    let last: usize = v.len() - p.len();
    let mut at: usize = 0;
    while at <= last
        invariant
            v@ == s@,
            p@ == part@,
            last == v@.len() - p@.len(),
            at <= last + 1,
            forall|j: int| 0 <= j < at ==> !#[trigger] occurs_at(s@, part@, j),
        decreases last + 1 - at,
    {
        if matches_at(&v, &p, at) {
            return true;
        }
        if at == last {
            return false;
        }
        at += 1;
    }
    false
}

/// Whether `s` begins with `part`.
pub fn starts_with(s: &str, part: &str) -> (r: bool)
    ensures
        r == begins_with(s@, part@),
{
    let v: Vec<char> = chars_of(s);
    let p: Vec<char> = chars_of(part);
    if p.len() > v.len() {
        return false;
    }
    assert(s@.subrange(0, part@.len() as int) == s@.take(part@.len() as int));
    matches_at(&v, &p, 0)
}

/// The pieces between the characters `a` and `b`.
pub fn split_either(s: &str, a: char, b: char) -> (r: Vec<String>)
    ensures
        texts(r@) == split_at_either(s@, a, b),
{
    let v: Vec<char> = chars_of(s);
    let ghost sep = either(a, b);
    let mut done: Vec<String> = Vec::new();
    let mut piece: String = String::new();
    let mut i: usize = 0;
    assert(texts(done@).push(piece@) =~= seq![seq![]]);
    while i < v.len()
        invariant
            i <= v@.len(),
            v@ == s@,
            sep == either(a, b),
            texts(done@).push(piece@) == split_by(s@.take(i as int), sep),
        decreases v@.len() - i,
    {
        let c: char = v[i];
        assert(s@.take(i + 1).drop_last() =~= s@.take(i as int));
        if c == a || c == b {
            let ghost before = texts(done@).push(piece@);
            done.push(piece);
            piece = String::new();
            assert(texts(done@) =~= before);
            assert(piece@ =~= seq![]);
        } else {
            let ghost before = texts(done@).push(piece@);
            piece.push(c);
            assert(before.drop_last() =~= texts(done@));
        }
        i += 1;
    }
    let ghost all = texts(done@).push(piece@);
    done.push(piece);
    assert(texts(done@) =~= all);
    assert(s@.take(s@.len() as int) =~= s@);
    done
}

/// The words of a string.
pub fn split_words(s: &str) -> (r: Vec<String>)
    ensures
        texts(r@) == words(s@),
{
    let v: Vec<char> = chars_of(s);
    let ghost sep = |c: char| is_white(c);
    let ghost keep = |w: Seq<char>| w.len() > 0;
    let mut done: Vec<String> = Vec::new();
    let mut piece: String = String::new();
    let mut i: usize = 0;
    proof {
        reveal(Seq::filter);
        assert(split_by(s@.take(0), sep) =~= seq![seq![]]);
        assert(seq![Seq::<char>::empty()].drop_last() =~= seq![]);
        assert(texts(done@) =~= split_by(s@.take(0), sep).drop_last().filter(keep));
    }
    while i < v.len()
        invariant
            i <= v@.len(),
            v@ == s@,
            sep == (|c: char| is_white(c)),
            keep == (|w: Seq<char>| w.len() > 0),
            split_by(s@.take(i as int), sep).len() > 0,
            piece@ == split_by(s@.take(i as int), sep).last(),
            texts(done@) == split_by(s@.take(i as int), sep).drop_last().filter(keep),
        decreases v@.len() - i,
    {
        let c: char = v[i];
        let ghost prior = split_by(s@.take(i as int), sep);
        let ghost next = split_by(s@.take(i + 1), sep);
        assert(s@.take(i + 1).drop_last() =~= s@.take(i as int));
        if white(c) {
            assert(next.drop_last() =~= prior);
            proof {
                lemma_filter_last(prior, keep);
            }
            if piece.as_str().is_empty() {
            } else {
                let ghost before = texts(done@);
                let ghost word = piece@;
                done.push(piece);
                assert(texts(done@) =~= before.push(word));
            }
            piece = String::new();
            assert(piece@ =~= seq![]);
        } else {
            piece.push(c);
            assert(next.drop_last() =~= prior.drop_last());
        }
        i += 1;
    }
    assert(s@.take(s@.len() as int) =~= s@);
    proof {
        lemma_filter_last(split_by(s@, sep), keep);
    }
    if piece.as_str().is_empty() {
    } else {
        let ghost before = texts(done@);
        let ghost word = piece@;
        done.push(piece);
        assert(texts(done@) =~= before.push(word));
    }
    done
}

/// Whether `a` stands before `b` in the order of their characters.
pub fn before(a: &str, b: &str) -> (r: bool)
    ensures
        r == text_before(a@, b@),
{
    let x: Vec<char> = chars_of(a);
    let y: Vec<char> = chars_of(b);
    let mut i: usize = 0;
    assert(a@.skip(0) =~= a@);
    assert(b@.skip(0) =~= b@);
    loop
        invariant
            x@ == a@,
            y@ == b@,
            i <= a@.len(),
            i <= b@.len(),
            text_before(a@, b@) == text_before(a@.skip(i as int), b@.skip(i as int)),
        decreases a@.len() - i,
    {
        if i == y.len() {
            return false;
        }
        if i == x.len() {
            return true;
        }
        if x[i] != y[i] {
            return x[i] < y[i];
        }
        assert(a@.skip(i as int).drop_first() =~= a@.skip(i + 1));
        assert(b@.skip(i as int).drop_first() =~= b@.skip(i + 1));
        i += 1;
    }
}

/// Whether a character is an ASCII letter or digit.
pub fn alnum(c: char) -> (r: bool)
    ensures
        r == is_alnum(c),
{
    ('a' <= c && c <= 'z') || ('A' <= c && c <= 'Z') || ('0' <= c && c <= '9')
}

/// Whether a string holds a character.
pub fn contains_char(s: &str, c: char) -> (r: bool)
    ensures
        r == has_char(s@, c),
{
    let v: Vec<char> = chars_of(s);
    let mut i: usize = 0;
    while i < v.len()
        invariant
            i <= v@.len(),
            v@ == s@,
            forall|j: int| 0 <= j < i ==> #[trigger] s@[j] != c,
        decreases v@.len() - i,
    {
        if v[i] == c {
            assert(s@[i as int] == c);
            return true;
        }
        i += 1;
    }
    false
}

/// Whether two lists hold the same strings in the same order.
pub fn same_list(a: &Vec<String>, b: &Vec<String>) -> (r: bool)
    ensures
        r == (texts(a@) == texts(b@)),
{
    if a.len() != b.len() {
        assert(texts(a@).len() != texts(b@).len());
        return false;
    }
    let mut i: usize = 0;
    while i < a.len()
        invariant
            i <= a@.len(),
            a@.len() == b@.len(),
            forall|j: int| 0 <= j < i ==> texts(a@)[j] == texts(b@)[j],
        decreases a@.len() - i,
    {
        if a[i] != b[i] {
            assert(texts(a@)[i as int] != texts(b@)[i as int]);
            return false;
        }
        i += 1;
    }
    assert(texts(a@) =~= texts(b@));
    true
}

/// A list of its own with the same strings.
pub fn copy_list(a: &Vec<String>) -> (r: Vec<String>)
    ensures
        r@ == a@,
{
    let mut r: Vec<String> = Vec::new();
    let mut i: usize = 0;
    while i < a.len()
        invariant
            i <= a@.len(),
            r@ == a@.take(i as int),
        decreases a@.len() - i,
    {
        r.push(a[i].clone());
        i += 1;
        assert(a@.take(i as int) =~= a@.take(i - 1).push(a@[i - 1]));
    }
    assert(a@.take(a@.len() as int) =~= a@);
    r
}

/// An optional string of its own.
pub fn copy_opt(value: &Option<String>) -> (r: Option<String>)
    ensures
        r == *value,
{
    match value {
        Some(s) => Some(s.clone()),
        None => None,
    }
}

/// The lines of a text.
pub fn split_lines(s: &str) -> (r: Vec<String>)
    ensures
        texts(r@) == lines_of(s@),
{
    let v: Vec<char> = chars_of(s);
    let mut done: Vec<String> = Vec::new();
    let mut from: usize = 0;
    let mut i: usize = 0;
    assert(texts(done@) =~= seq![]);
    while i < v.len()
        invariant
            from <= i <= v@.len(),
            v@ == s@,
            lines_upto(s@, i as int) == (texts(done@), from as int),
        decreases v@.len() - i,
    {
        if v[i] == '\n' {
            let to: usize = if from < i && v[i - 1] == '\r' { i - 1 } else { i };
            let ghost prior = texts(done@);
            done.push(string_of(&v, from, to));
            assert(texts(done@) =~= prior.push(s@.subrange(from as int, to as int)));
            from = i + 1;
        }
        i += 1;
    }
    if from < v.len() {
        let ghost prior = texts(done@);
        done.push(string_of(&v, from, v.len()));
        assert(texts(done@) =~= prior.push(s@.subrange(from as int, s@.len() as int)));
    }
    done
}

/// Whether a list holds a string.
pub fn list_has(list: &Vec<String>, s: &str) -> (r: bool)
    ensures
        r == texts(list@).contains(s@),
{
    let mut i: usize = 0;
    while i < list.len()
        invariant
            i <= list@.len(),
            forall|j: int| 0 <= j < i ==> texts(list@)[j] != s@,
        decreases list@.len() - i,
    {
        if same(list[i].as_str(), s) {
            assert(texts(list@)[i as int] == s@);
            return true;
        }
        i += 1;
    }
    false
}

fn lower(c: char) -> (r: char)
    ensures
        r == lower_char(c),
{
    if 'A' <= c && c <= 'Z' {
        let n: u32 = c as u32;
        let b: u8 = (n + 32) as u8;
        b as char
    } else {
        c
    }
}

/// The string with its ASCII capital letters made small.
pub fn to_lower(s: &str) -> (r: String)
    ensures
        r@ == lowered(s@),
{
    let v: Vec<char> = chars_of(s);
    let mut r: String = String::new();
    let mut i: usize = 0;
    while i < v.len()
        invariant
            i <= v@.len(),
            v@ == s@,
            r@ == lowered(s@.take(i as int)),
        decreases v@.len() - i,
    {
        r.push(lower(v[i]));
        i += 1;
        assert(lowered(s@.take(i as int)) =~= lowered(s@.take(i - 1)).push(lower_char(s@[i - 1])));
    }
    assert(s@.take(s@.len() as int) =~= s@);
    r
}

/// The string with every `from` replaced by `to`.
pub fn replace_char(s: &str, from: char, to: char) -> (r: String)
    ensures
        r@ == with_replaced(s@, from, to),
{
    let v: Vec<char> = chars_of(s);
    let mut r: String = String::new();
    let mut i: usize = 0;
    while i < v.len()
        invariant
            i <= v@.len(),
            v@ == s@,
            r@ == with_replaced(s@.take(i as int), from, to),
        decreases v@.len() - i,
    {
        let c: char = if v[i] == from { to } else { v[i] };
        r.push(c);
        i += 1;
        assert(with_replaced(s@.take(i as int), from, to) =~= with_replaced(s@.take(i - 1), from, to).push(c));
    }
    assert(s@.take(s@.len() as int) =~= s@);
    r
}

/// The strings of a list with a separator between neighbours.
pub fn join(parts: &Vec<String>, sep: &str) -> (r: String)
    ensures
        r@ == joined(texts(parts@), sep@),
{
    let mut r: String = String::new();
    let mut i: usize = 0;
    while i < parts.len()
        invariant
            i <= parts@.len(),
            r@ == joined(texts(parts@).take(i as int), sep@),
        decreases parts@.len() - i,
    {
        let ghost before = texts(parts@).take(i as int);
        let ghost after = texts(parts@).take(i + 1);
        assert(after.drop_last() =~= before);
        if i > 0 {
            r.append(sep);
        }
        r.append(parts[i].as_str());
        assert(after.last() == parts@[i as int]@);
        if i == 0 {
            assert(r@ =~= after[0]);
        }
        i += 1;
    }
    assert(texts(parts@).take(parts@.len() as int) =~= texts(parts@));
    r
}

fn digit(d: u64) -> (c: char)
    requires
        d < 10,
    ensures
        c == digit_char(d as nat),
{
    let b: u8 = (48 + d) as u8;
    b as char
}

/// A number in decimal.
pub fn to_decimal(n: u64) -> (s: String)
    ensures
        s@ == decimal(n as nat),
    decreases n,
{
    if n < 10 {
        let mut s: String = String::new();
        s.push(digit(n));
        assert(s@ =~= seq![digit_char(n as nat)]);
        s
    } else {
        let mut s: String = to_decimal(n / 10);
        s.push(digit(n % 10));
        s
    }
}

fn hex(d: u64) -> (c: char)
    requires
        d < 16,
    ensures
        c == hex_char(d as nat),
{
    if d < 10 {
        digit(d)
    } else {
        let b: u8 = (87 + d) as u8;
        b as char
    }
}

/// The last `width` hexadecimal digits of a number.
pub fn to_hex(n: u64, width: usize) -> (s: String)
    ensures
        s@ == hex_digits(n as nat, width as nat),
    decreases width,
{
    if width == 0 {
        let s: String = String::new();
        assert(s@ =~= seq![]);
        s
    } else {
        let mut s: String = to_hex(n / 16, width - 1);
        s.push(hex(n % 16));
        s
    }
}

/// The number of bytes of a character.
pub fn width_of(c: char) -> (n: usize)
    ensures
        n == char_width(c),
        1 <= n <= 4,
{
    let u: u32 = c as u32;
    if u <= 0x7f {
        1
    } else if u <= 0x7ff {
        2
    } else if u <= 0xffff {
        3
    } else {
        4
    }
}

/// How many leading characters fit in `max` bytes.
pub fn fitting_chars(v: &Vec<char>, max: usize) -> (n: usize)
    ensures
        n == fitting(v@, max as nat),
        n <= v@.len(),
{
    let mut i: usize = 0;
    let mut left: usize = max;
    assert(v@.skip(0) =~= v@);
    while i < v.len()
        invariant
            i <= v@.len(),
            left <= max,
            fitting(v@, max as nat) == i + fitting(v@.skip(i as int), left as nat),
        decreases v@.len() - i,
    {
        let w: usize = width_of(v[i]);
        if w > left {
            return i;
        }
        assert(v@.skip(i as int).drop_first() =~= v@.skip(i + 1));
        left -= w;
        i += 1;
    }
    i
}

/// The longest prefix that fits in `max` bytes.
pub fn prefix_within(s: &str, max: usize) -> (r: String)
    ensures
        r@ == fitting_prefix(s@, max as nat),
        utf8_len(r@) <= max,
{
    let v: Vec<char> = chars_of(s);
    let n: usize = fitting_chars(&v, max);
    proof {
        lemma_fitting(s@, max as nat);
        assert(v@.subrange(0, n as int) =~= s@.take(n as int));
    }
    string_of(&v, 0, n)
}

/// `s`, or as much of it as fits in `max` bytes with three dots behind it.
pub open spec fn shortened(s: Seq<char>, max: nat) -> Seq<char> {
    if utf8_len(s) <= max {
        s
    } else {
        fitting_prefix(s, max) + "..."@
    }
}

/// `s`, or as much of it as fits in `max` bytes with three dots behind it.
pub fn shorten(s: &str, max: usize) -> (r: String)
    ensures
        r@ == shortened(s@, max as nat),
{
    if byte_len(s) <= max {
        text(s)
    } else {
        prefix_within(s, max).concat("...")
    }
}

/// What is left of a text after shortening has at most three bytes more than were
/// allowed, and a text that fits is left as it is.
pub proof fn lemma_shortened_is_bounded(s: Seq<char>, max: nat)
    ensures
        utf8_len(shortened(s, max)) <= max + 3,
        utf8_len(s) <= max ==> shortened(s, max) == s,
{
    lemma_fitting(s, max);
    lemma_utf8_len_concat(fitting_prefix(s, max), "..."@);
    reveal_strlit("...");
    lemma_ascii_utf8_len("..."@);
}

} // verus!
