//! Character-level text helpers shared by the engine, the browser and the
//! display code: building strings, decimal numbers, truncation with an
//! ellipsis, and case folding.
use vstd::prelude::*;

verus! {

/// The ellipsis that marks truncated text.
pub open spec fn ellipsis() -> char {
    '…'
}

/// The text of `t` cut down to at most `max` characters: unchanged when it
/// fits, otherwise its first `max - 1` characters followed by an ellipsis.
pub open spec fn fit_spec(t: Seq<char>, max: nat) -> Seq<char> {
    if max == 0 {
        Seq::empty()
    } else if t.len() <= max {
        t
    } else {
        t.take(max - 1).push(ellipsis())
    }
}

/// The decimal digit for `d` (taken modulo ten).
pub open spec fn digit_char(d: nat) -> char {
    let d = d % 10;
    if d == 0 {
        '0'
    } else if d == 1 {
        '1'
    } else if d == 2 {
        '2'
    } else if d == 3 {
        '3'
    } else if d == 4 {
        '4'
    } else if d == 5 {
        '5'
    } else if d == 6 {
        '6'
    } else if d == 7 {
        '7'
    } else if d == 8 {
        '8'
    } else {
        '9'
    }
}

/// The decimal notation of `n`, without leading zeros.
pub open spec fn decimal(n: nat) -> Seq<char>
    decreases n,
{
    if n < 10 {
        seq![digit_char(n)]
    } else {
        decimal(n / 10).push(digit_char(n % 10))
    }
}

/// The decimal notation of `n`, left-padded with zeros to two characters.
pub open spec fn decimal2(n: nat) -> Seq<char> {
    if n < 10 {
        seq!['0', digit_char(n)]
    } else {
        decimal(n)
    }
}

/// ASCII upper-case letters mapped to lower case; every other character kept.
pub open spec fn ascii_lower_char(c: char) -> char {
    if 'A' <= c && c <= 'Z' {
        ((c as u32) + 32) as char
    } else {
        c
    }
}

/// ASCII lower-case letters mapped to upper case; every other character kept.
pub open spec fn ascii_upper_char(c: char) -> char {
    if 'a' <= c && c <= 'z' {
        ((c as u32) - 32) as char
    } else {
        c
    }
}

/// The whole text folded with `ascii_upper_char`.
pub open spec fn ascii_upper(s: Seq<char>) -> Seq<char> {
    s.map_values(|c: char| ascii_upper_char(c))
}

/// The whole text folded with `ascii_lower_char`.
pub open spec fn ascii_lower(s: Seq<char>) -> Seq<char> {
    s.map_values(|c: char| ascii_lower_char(c))
}

/// Name for what `str::to_lowercase` returns (full Unicode lower-casing).
pub uninterp spec fn unicode_lower(s: Seq<char>) -> Seq<char>;

/// Name for what `str::to_uppercase` returns (full Unicode upper-casing).
pub uninterp spec fn unicode_upper(s: Seq<char>) -> Seq<char>;

/// Appends one character; `String::push` as documented by std.
#[verifier::external_body]
pub(crate) fn push_char(s: &mut String, c: char)
    ensures
        final(s)@ == old(s)@.push(c),
{
    s.push(c);
}

/// Lower-cases `s` with `str::to_lowercase`; nothing about the Unicode
/// case tables is stated beyond naming the result.
#[verifier::external_body]
pub(crate) fn to_lowercase(s: &str) -> (r: String)
    ensures
        r@ == unicode_lower(s@),
{
    s.to_lowercase()
}

/// Upper-cases `s` with `str::to_uppercase`; nothing about the Unicode
/// case tables is stated beyond naming the result.
#[verifier::external_body]
pub(crate) fn to_uppercase(s: &str) -> (r: String)
    ensures
        r@ == unicode_upper(s@),
{
    s.to_uppercase()
}

/// The characters of `s`, in order.
pub fn chars_of(s: &str) -> (v: Vec<char>)
    ensures
        v@ == s@,
{
    let mut v: Vec<char> = Vec::new();
    for c in it: s.chars()
        invariant
            v@ == it.seq().take(it.index() as int),
            it.seq() == s@,
    {
        v.push(c);
    }
    v
}

/// The number of characters of `s`.
pub fn char_count(s: &str) -> (n: usize)
    ensures
        n == s@.len(),
{
    let v = chars_of(s);
    v.len()
}

/// A string holding exactly the characters of `v`.
pub fn string_from_chars(v: &[char]) -> (s: String)
    ensures
        s@ == v@,
{
    let mut s = String::new();
    let mut i: usize = 0;
    while i < v.len()
        invariant
            i <= v@.len(),
            s@ == v@.take(i as int),
        decreases v@.len() - i,
    {
        push_char(&mut s, v[i]);
        i = i + 1;
        assert(v@.take(i as int) =~= v@.take((i - 1) as int).push(v@[i - 1]));
    }
    assert(v@.take(v@.len() as int) =~= v@);
    s
}

/// A fresh string holding the characters of `s`.
pub fn owned(s: &str) -> (r: String)
    ensures
        r@ == s@,
{
    let mut r = String::new();
    r.append(s);
    r
}

/// The digit character for `d`.
pub fn digit(d: u64) -> (c: char)
    requires
        d < 10,
    ensures
        c == digit_char(d as nat),
{
    if d == 0 {
        '0'
    } else if d == 1 {
        '1'
    } else if d == 2 {
        '2'
    } else if d == 3 {
        '3'
    } else if d == 4 {
        '4'
    } else if d == 5 {
        '5'
    } else if d == 6 {
        '6'
    } else if d == 7 {
        '7'
    } else if d == 8 {
        '8'
    } else {
        '9'
    }
}

/// Appends the decimal notation of `n`.
pub fn push_decimal(s: &mut String, n: u64)
    ensures
        final(s)@ == old(s)@ + decimal(n as nat),
    decreases n,
{
    if n >= 10 {
        push_decimal(s, n / 10);
    }
    push_char(s, digit(n % 10));
    assert(n % 10 < 10);
    if n < 10 {
        assert(decimal(n as nat) =~= seq![digit_char(n as nat)]);
        assert(digit_char(n as nat) == digit_char((n % 10) as nat));
    } else {
        assert(decimal(n as nat) == decimal((n / 10) as nat).push(digit_char((n % 10) as nat)));
    }
    assert(final(s)@ =~= old(s)@ + decimal(n as nat));
}

/// Appends the decimal notation of `n`, padded with a zero to two characters.
pub fn push_decimal2(s: &mut String, n: u64)
    ensures
        final(s)@ == old(s)@ + decimal2(n as nat),
{
    if n < 10 {
        push_char(s, '0');
        push_char(s, digit(n));
        assert(final(s)@ =~= old(s)@ + decimal2(n as nat));
    } else {
        push_decimal(s, n);
    }
}

/// The text cut to at most `max_chars` characters, an ellipsis marking the cut.
pub fn fit_text(text: &str, max_chars: usize) -> (r: String)
    ensures
        r@ == fit_spec(text@, max_chars as nat),
        r@.len() <= max_chars,
{
    if max_chars == 0 {
        return String::new();
    }
    let chars = chars_of(text);
    if chars.len() <= max_chars {
        return owned(text);
    }
    let mut r = String::new();
    let mut i: usize = 0;
    while i < max_chars - 1
        invariant
            max_chars >= 1,
            chars@ == text@,
            chars@.len() > max_chars,
            i <= max_chars - 1,
            r@ == text@.take(i as int),
        decreases max_chars - 1 - i,
    {
        push_char(&mut r, chars[i]);
        i = i + 1;
        assert(text@.take(i as int) =~= text@.take((i - 1) as int).push(text@[i - 1]));
    }
    push_char(&mut r, '…');
    r
}

/// `s` with ASCII letters folded to lower case.
pub fn ascii_lowercase(s: &str) -> (r: String)
    ensures
        r@ == ascii_lower(s@),
{
    let chars = chars_of(s);
    let mut r = String::new();
    let mut i: usize = 0;
    while i < chars.len()
        invariant
            chars@ == s@,
            i <= chars@.len(),
            r@ == ascii_lower(s@.take(i as int)),
        decreases chars@.len() - i,
    {
        let c = chars[i];
        let l = if 'A' <= c && c <= 'Z' {
            let code: u8 = (c as u8) + 32;
            code as char
        } else {
            c
        };
        push_char(&mut r, l);
        i = i + 1;
        assert(ascii_lower(s@.take(i as int)) =~= ascii_lower(s@.take((i - 1) as int)).push(
            ascii_lower_char(s@[i - 1]),
        ));
    }
    assert(s@.take(chars@.len() as int) =~= s@);
    r
}

/// `s` with ASCII letters folded to upper case.
pub fn ascii_uppercase(s: &str) -> (r: String)
    ensures
        r@ == ascii_upper(s@),
{
    let chars = chars_of(s);
    let mut r = String::new();
    let mut i: usize = 0;
    while i < chars.len()
        invariant
            chars@ == s@,
            i <= chars@.len(),
            r@ == ascii_upper(s@.take(i as int)),
        decreases chars@.len() - i,
    {
        let c = chars[i];
        let u = if 'a' <= c && c <= 'z' {
            let code: u8 = (c as u8) - 32;
            code as char
        } else {
            c
        };
        push_char(&mut r, u);
        i = i + 1;
        assert(ascii_upper(s@.take(i as int)) =~= ascii_upper(s@.take((i - 1) as int)).push(
            ascii_upper_char(s@[i - 1]),
        ));
    }
    assert(s@.take(chars@.len() as int) =~= s@);
    r
}

/// Whether two texts hold the same characters.
pub fn same_text(a: &str, b: &str) -> (r: bool)
    ensures
        r == (a@ == b@),
{
    let x = chars_of(a);
    let y = chars_of(b);
    if x.len() != y.len() {
        return false;
    }
    let mut i: usize = 0;
    while i < x.len()
        invariant
            x@ == a@,
            y@ == b@,
            x@.len() == y@.len(),
            i <= x@.len(),
            forall|j: int| 0 <= j < i ==> x@[j] == y@[j],
        decreases x@.len() - i,
    {
        if x[i] != y[i] {
            return false;
        }
        i = i + 1;
    }
    assert(a@ =~= b@);
    true
}

/// The parts joined with `sep` between neighbours.
pub open spec fn joined(parts: Seq<Seq<char>>, sep: Seq<char>) -> Seq<char>
    decreases parts.len(),
{
    if parts.len() == 0 {
        Seq::empty()
    } else if parts.len() == 1 {
        parts[0]
    } else {
        joined(parts.drop_last(), sep) + sep + parts.last()
    }
}

/// The strings of `parts` from position `start` on, joined with `sep`.
pub fn join_from(parts: &Vec<String>, start: usize, sep: &str) -> (r: String)
    requires
        start <= parts@.len(),
    ensures
        r@ == joined(parts@.map_values(|p: String| p@).skip(start as int), sep@),
{
    let ghost all = parts@.map_values(|p: String| p@);
    let mut r = String::new();
    let mut i = start;
    assert(all.skip(start as int).take(0) =~= Seq::<Seq<char>>::empty());
    while i < parts.len()
        invariant
            start <= i <= parts@.len(),
            all == parts@.map_values(|p: String| p@),
            r@ == joined(all.skip(start as int).take(i - start), sep@),
        decreases parts@.len() - i,
    {
        let ghost before = all.skip(start as int).take(i - start);
        let ghost after = all.skip(start as int).take(i + 1 - start);
        assert(after.drop_last() =~= before);
        assert(after.last() == parts@[i as int]@);
        if i > start {
            r.append(sep);
        } else {
            assert(after.len() == 1);
        }
        r.append(parts[i].as_str());
        i = i + 1;
    }
    assert(all.skip(start as int).take(parts@.len() - start) =~= all.skip(start as int));
    r
}

/// `s` with the occurrences of a non-empty `from` replaced by `to`, found
/// from the left and not overlapping.
pub open spec fn replaced(s: Seq<char>, from: Seq<char>, to: Seq<char>) -> Seq<char>
    decreases s.len(),
{
    if from.len() == 0 || s.len() < from.len() {
        s
    } else if s.take(from.len() as int) == from {
        to + replaced(s.skip(from.len() as int), from, to)
    } else {
        seq![s[0]] + replaced(s.skip(1), from, to)
    }
}

/// `s` with `to` put before every character and at the end: what replacing
/// the empty pattern gives.
pub open spec fn interleaved(s: Seq<char>, to: Seq<char>) -> Seq<char>
    decreases s.len(),
{
    if s.len() == 0 {
        to
    } else {
        to + seq![s[0]] + interleaved(s.skip(1), to)
    }
}

/// `str::replace`: every occurrence of `from` in `s`, found from the left
/// and not overlapping, replaced by `to`; an empty `from` matches before
/// every character and at the end.
#[verifier::external_body]
pub(crate) fn replace(s: &str, from: &str, to: &str) -> (r: String)
    ensures
        r@ == if from@.len() > 0 {
            replaced(s@, from@, to@)
        } else {
            interleaved(s@, to@)
        },
{
    s.replace(from, to)
}

/// `a` followed by `b`.
pub fn concat2(a: &str, b: &str) -> (r: String)
    ensures
        r@ == a@ + b@,
{
    let mut r = owned(a);
    r.append(b);
    r
}

/// `a`, `b` and `c` in a row.
pub fn concat3(a: &str, b: &str, c: &str) -> (r: String)
    ensures
        r@ == a@ + b@ + c@,
{
    let mut r = owned(a);
    r.append(b);
    r.append(c);
    r
}

} // verus!
