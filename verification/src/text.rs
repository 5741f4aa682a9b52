//! Decimal numbers and the small pieces of text handling that the rest of the
//! crate is built on: digits, white space, splitting and trimming.
//!
//! Everything here is stated over sequences of characters, the views of
//! strings.

use vstd::prelude::*;

verus! {

// ---------------------------------------------------------------------------
// Characters and strings
// ---------------------------------------------------------------------------

/// Appends one character: `String::push` puts the given `char` at the end of
/// the string and changes nothing else.
#[verifier::external_body]
pub(crate) fn push_char(out: &mut String, c: char)
    ensures
        final(out)@ == old(out)@.push(c),
{
    out.push(c);
}

/// The views of a sequence of strings, one by one.
pub open spec fn texts(v: Seq<String>) -> Seq<Seq<char>> {
    Seq::new(v.len(), |i: int| v[i]@)
}

/// The characters of a string slice, in order.
pub fn chars_of(s: &str) -> (v: Vec<char>)
    ensures
        v@ == s@,
{
    broadcast use vstd::string::group_string_axioms;

    let mut v: Vec<char> = Vec::new();
    for c in it: s.chars()
        invariant
            it.seq() == s@,
            v@ == it.seq().take(it.index()),
    {
        v.push(c);
    }
    v
}

/// Whether two string slices hold the same text.
pub fn same_text(a: &str, b: &str) -> (same: bool)
    ensures
        same == (a@ == b@),
{
    let x = chars_of(a);
    let y = chars_of(b);
    if x.len() != y.len() {
        return false;
    }
    let mut i: usize = 0;
    while i < x.len()
        invariant
            x@ == a@,
            y@ == b@,
            x.len() == y.len(),
            i <= x.len(),
            forall|k: int| 0 <= k < i ==> x@[k] == y@[k],
        decreases x.len() - i,
    {
        if x[i] != y[i] {
            assert(a@[i as int] != b@[i as int]);
            return false;
        }
        i += 1;
    }
    assert(x@ =~= y@);
    true
}

/// Whether `name` is among `list`.
pub fn has_text(list: &Vec<String>, name: &str) -> (found: bool)
    ensures
        found == texts(list@).contains(name@),
{
    let mut i: usize = 0;
    while i < list.len()
        invariant
            i <= list.len(),
            forall|k: int| 0 <= k < i ==> texts(list@)[k] != name@,
        decreases list.len() - i,
    {
        if same_text(list[i].as_str(), name) {
            assert(texts(list@)[i as int] == name@);
            return true;
        }
        i += 1;
    }
    false
}

/// The string made of `chars[from..to]`.
pub fn string_of(chars: &Vec<char>, from: usize, to: usize) -> (s: String)
    requires
        from <= to <= chars.len(),
    ensures
        s@ == chars@.subrange(from as int, to as int),
{
    let mut s = String::new();
    let mut i: usize = from;
    while i < to
        invariant
            from <= i <= to <= chars.len(),
            s@ == chars@.subrange(from as int, i as int),
        decreases to - i,
    {
        push_char(&mut s, chars[i]);
        i += 1;
        assert(chars@.subrange(from as int, i as int) == chars@.subrange(
            from as int,
            i as int - 1,
        ).push(chars@[i as int - 1]));
    }
    s
}

// ---------------------------------------------------------------------------
// Decimal digits
// ---------------------------------------------------------------------------

/// `'0'` to `'9'`.
pub open spec fn is_digit(c: char) -> bool {
    '0' <= c <= '9'
}

/// The number that a digit stands for.
pub open spec fn digit_value(c: char) -> nat {
    (c as int - 48) as nat
}

/// The digit that stands for a number below ten.
pub open spec fn digit_char(d: nat) -> char {
    ((d + 48) as u8) as char
}

/// Every character is a digit.
pub open spec fn all_digits(s: Seq<char>) -> bool {
    forall|i: int| 0 <= i < s.len() ==> is_digit(#[trigger] s[i])
}

/// The decimal numeral of `n`: no sign, no leading zero, `"0"` for zero.
pub open spec fn decimal(n: nat) -> Seq<char>
    decreases n,
{
    if n < 10 {
        seq![digit_char(n)]
    } else {
        decimal(n / 10).push(digit_char(n % 10))
    }
}

/// The number that a run of digits spells, most significant digit first.
pub open spec fn decimal_value(s: Seq<char>) -> nat
    decreases s.len(),
{
    if s.len() == 0 {
        0
    } else {
        decimal_value(s.drop_last()) * 10 + digit_value(s.last())
    }
}

/// A numeral as `decimal` writes it: digits only, at least one, and no
/// leading zero on a numeral of two or more digits.
pub open spec fn is_canonical(s: Seq<char>) -> bool {
    &&& s.len() >= 1
    &&& all_digits(s)
    &&& s.len() > 1 ==> s[0] != '0'
}

/// The digits are the characters for the numbers below ten.
pub proof fn lemma_digit_char(d: nat)
    requires
        d < 10,
    ensures
        is_digit(digit_char(d)),
        digit_value(digit_char(d)) == d,
        (digit_char(d) == '0') == (d == 0),
{
}

/// `decimal` writes canonical numerals, and they spell the number they were
/// written from.
pub proof fn lemma_decimal(n: nat)
    ensures
        is_canonical(decimal(n)),
        decimal_value(decimal(n)) == n,
        (decimal(n)[0] == '0') == (n == 0),
    decreases n,
{
    if n < 10 {
        lemma_digit_char(n);
        let s = decimal(n);
        assert(s.drop_last() == Seq::<char>::empty());
        assert(decimal_value(s.drop_last()) == 0);
    } else {
        lemma_decimal(n / 10);
        lemma_digit_char(n % 10);
        let t = decimal(n / 10);
        let s = t.push(digit_char(n % 10));
        assert(s.drop_last() == t);
        assert(s[0] == t[0]);
        assert forall|i: int| 0 <= i < s.len() implies is_digit(#[trigger] s[i]) by {
            if i < t.len() {
                assert(s[i] == t[i]);
            }
        }
    }
}

/// Different numbers have different numerals.
pub proof fn lemma_decimal_injective(a: nat, b: nat)
    requires
        decimal(a) == decimal(b),
    ensures
        a == b,
{
    lemma_decimal(a);
    lemma_decimal(b);
}

/// Appending digits never makes the number smaller.
pub proof fn lemma_value_monotone(s: Seq<char>, k: int)
    requires
        0 <= k <= s.len(),
        all_digits(s),
    ensures
        decimal_value(s.take(k)) <= decimal_value(s),
    decreases s.len() - k,
{
    if k == s.len() {
        assert(s.take(k) == s);
    } else {
        lemma_value_monotone(s, k + 1);
        let t = s.take(k + 1);
        assert(t.drop_last() == s.take(k));
        assert(decimal_value(t) == decimal_value(s.take(k)) * 10 + digit_value(t.last()));
    }
}

/// The digit for a number below ten.
pub fn digit(d: u8) -> (c: char)
    requires
        d < 10,
    ensures
        c == digit_char(d as nat),
{
    (d + 48u8) as char
}

/// The number that `c` stands for, when it is a digit.
pub fn digit_of(c: char) -> (r: Option<u8>)
    ensures
        match r {
            Some(d) => is_digit(c) && d == digit_value(c),
            None => !is_digit(c),
        },
{
    let code: u32 = c as u32;
    if 48 <= code && code <= 57 {
        Some((code - 48) as u8)
    } else {
        None
    }
}

/// Appends the decimal numeral of `n`.
pub fn push_decimal(out: &mut String, n: u64)
    ensures
        final(out)@ == old(out)@ + decimal(n as nat),
    decreases n,
{
    if n >= 10 {
        push_decimal(out, n / 10);
    }
    push_char(out, digit((n % 10) as u8));
    assert(final(out)@ == old(out)@ + decimal(n as nat)) by {
        if n >= 10 {
            assert((old(out)@ + decimal((n / 10) as nat)).push(digit_char((n % 10) as nat)) == old(
                out,
            )@ + decimal((n / 10) as nat).push(digit_char((n % 10) as nat)));
        } else {
            assert(old(out)@.push(digit_char(n as nat)) == old(out)@ + seq![digit_char(n as nat)]);
        }
    }
}

/// Where the run of digits that begins at `from` ends: the index of the first
/// character at or after `from` that is no digit, or the length.
pub fn digits_end(chars: &Vec<char>, from: usize) -> (end: usize)
    requires
        from <= chars.len(),
    ensures
        from <= end <= chars.len(),
        forall|i: int| from <= i < end ==> is_digit(#[trigger] chars@[i]),
        end < chars.len() ==> !is_digit(chars@[end as int]),
{
    let mut end: usize = from;
    while end < chars.len()
        invariant
            from <= end <= chars.len(),
            forall|i: int| from <= i < end ==> is_digit(#[trigger] chars@[i]),
        decreases chars.len() - end,
    {
        if digit_of(chars[end]).is_none() {
            return end;
        }
        end += 1;
    }
    end
}

/// What a run of characters says as an unsigned number of at most `max`:
/// nothing unless it is one or more digits whose value does not exceed `max`.
pub open spec fn digits_upto(s: Seq<char>, max: nat) -> Option<nat> {
    if s.len() >= 1 && all_digits(s) && decimal_value(s) <= max {
        Some(decimal_value(s))
    } else {
        None
    }
}

/// Reads `chars[from..to]` as a run of digits.
pub fn parse_digits(chars: &Vec<char>, from: usize, to: usize, max: u64) -> (r: Option<u64>)
    requires
        from <= to <= chars.len(),
    ensures
        match digits_upto(chars@.subrange(from as int, to as int), max as nat) {
            Some(v) => r == Some(v as u64),
            None => r is None,
        },
{
    let ghost s = chars@.subrange(from as int, to as int);
    if from == to {
        return None;
    }
    let mut acc: u64 = 0;
    let mut i: usize = from;
    while i < to
        invariant
            from <= i <= to <= chars.len(),
            s == chars@.subrange(from as int, to as int),
            all_digits(s.take(i - from)),
            acc == decimal_value(s.take(i - from)),
            acc <= max,
        decreases to - i,
    {
        let c = chars[i];
        let ghost k = i - from;
        assert(s[k] == c);
        assert(s.take(k + 1).drop_last() == s.take(k));
        assert(s.take(k + 1).last() == c);
        let d: u64 = match digit_of(c) {
            Some(d) => d as u64,
            None => {
                return None;
            },
        };
        assert(all_digits(s.take(k + 1))) by {
            assert forall|j: int| 0 <= j < k + 1 implies is_digit(#[trigger] s.take(k + 1)[j]) by {
                if j < k {
                    assert(s.take(k)[j] == s.take(k + 1)[j]);
                }
            }
        }
        let next: Option<u64> = match acc.checked_mul(10) {
            Some(m) => m.checked_add(d),
            None => None,
        };
        let fits = match next {
            Some(v) => v <= max,
            None => false,
        };
        if !fits {
            proof {
                // The digits read so far already spell more than `max`, and the
                // rest can only add to it.
                assert(decimal_value(s.take(k + 1)) == acc * 10 + d);
                if all_digits(s) {
                    lemma_value_monotone(s, k + 1);
                }
            }
            return None;
        }
        acc = next.unwrap();
        i += 1;
    }
    assert(s.take(to - from) == s);
    Some(acc)
}

/// What `text` says as an unsigned number of at most `max`, read the way
/// Rust reads an unsigned integer: an optional `+`, then one or more digits
/// and nothing else.
pub open spec fn unsigned_upto(text: Seq<char>, max: nat) -> Option<nat> {
    if text.len() >= 1 && text[0] == '+' {
        digits_upto(text.drop_first(), max)
    } else {
        digits_upto(text, max)
    }
}

/// Reads a string as an unsigned number of at most `max`.
pub fn parse_unsigned(text: &str, max: u64) -> (r: Option<u64>)
    ensures
        match unsigned_upto(text@, max as nat) {
            Some(v) => r == Some(v as u64),
            None => r is None,
        },
{
    let chars = chars_of(text);
    let from: usize = if chars.len() >= 1 && chars[0] == '+' {
        1
    } else {
        0
    };
    assert(chars@.subrange(from as int, chars.len() as int) == if from == 1 {
        text@.drop_first()
    } else {
        text@
    });
    parse_digits(&chars, from, chars.len(), max)
}

// ---------------------------------------------------------------------------
// White space, trimming and splitting
// ---------------------------------------------------------------------------

/// White space as Unicode has it: the characters with the property
/// `White_Space`.
pub open spec fn is_whitespace(c: char) -> bool {
    ||| '\u{9}' <= c <= '\u{d}'
    ||| c == ' '
    ||| c == '\u{85}'
    ||| c == '\u{a0}'
    ||| c == '\u{1680}'
    ||| '\u{2000}' <= c <= '\u{200a}'
    ||| c == '\u{2028}'
    ||| c == '\u{2029}'
    ||| c == '\u{202f}'
    ||| c == '\u{205f}'
    ||| c == '\u{3000}'
}

/// Whether `c` is white space.
pub fn whitespace(c: char) -> (white: bool)
    ensures
        white == is_whitespace(c),
{
    ('\u{9}' <= c && c <= '\u{d}') || c == ' ' || c == '\u{85}' || c == '\u{a0}' || c
        == '\u{1680}' || ('\u{2000}' <= c && c <= '\u{200a}') || c == '\u{2028}' || c
        == '\u{2029}' || c == '\u{202f}' || c == '\u{205f}' || c == '\u{3000}'
}

/// The text without the white space that it begins with.
pub open spec fn trim_start(s: Seq<char>) -> Seq<char>
    decreases s.len(),
{
    if s.len() > 0 && is_whitespace(s[0]) {
        trim_start(s.drop_first())
    } else {
        s
    }
}

/// The text without the white space that it ends with.
pub open spec fn trim_end(s: Seq<char>) -> Seq<char>
    decreases s.len(),
{
    if s.len() > 0 && is_whitespace(s.last()) {
        trim_end(s.drop_last())
    } else {
        s
    }
}

/// The text without the white space at either end.
pub open spec fn trimmed(s: Seq<char>) -> Seq<char> {
    trim_end(trim_start(s))
}

/// The text without the white space at either end.
pub fn trim(chars: &Vec<char>) -> (out: String)
    ensures
        out@ == trimmed(chars@),
{
    let mut from: usize = 0;
    assert(chars@.subrange(0, chars.len() as int) == chars@);
    while from < chars.len() && whitespace(chars[from])
        invariant
            from <= chars.len(),
            trim_start(chars@) == trim_start(chars@.subrange(from as int, chars.len() as int)),
        decreases chars.len() - from,
    {
        assert(chars@.subrange(from as int, chars.len() as int).drop_first() == chars@.subrange(
            from + 1,
            chars.len() as int,
        ));
        from += 1;
    }
    let ghost rest = chars@.subrange(from as int, chars.len() as int);
    assert(trim_start(chars@) == rest) by {
        if from < chars.len() {
            assert(rest[0] == chars@[from as int]);
        }
    }
    let mut to: usize = chars.len();
    assert(rest.subrange(0, to - from) == rest);
    while to > from && whitespace(chars[to - 1])
        invariant
            from <= to <= chars.len(),
            rest == chars@.subrange(from as int, chars.len() as int),
            trim_end(rest) == trim_end(rest.subrange(0, to - from)),
        decreases to,
    {
        assert(rest.subrange(0, to - from).last() == chars@[to - 1]);
        assert(rest.subrange(0, to - from).drop_last() == rest.subrange(0, to - from - 1));
        to -= 1;
    }
    assert(trim_end(rest) == rest.subrange(0, to - from)) by {
        if to > from {
            assert(rest.subrange(0, to - from).last() == chars@[to - 1]);
        }
    }
    assert(rest.subrange(0, to - from) == chars@.subrange(from as int, to as int));
    string_of(chars, from, to)
}

/// The pieces of a text between the separators, in order. A text without a
/// separator is one piece; two separators side by side have an empty piece
/// between them.
pub open spec fn split_on(s: Seq<char>, sep: char) -> Seq<Seq<char>>
    decreases s.len(),
{
    if s.len() == 0 {
        seq![Seq::empty()]
    } else {
        let before = split_on(s.drop_last(), sep);
        if s.last() == sep {
            before.push(Seq::empty())
        } else {
            before.drop_last().push(before.last().push(s.last()))
        }
    }
}

/// The views of a sequence of vectors, one by one.
pub open spec fn pieces(v: Seq<Vec<char>>) -> Seq<Seq<char>> {
    Seq::new(v.len(), |i: int| v[i]@)
}

/// The pieces of a text between the separators.
pub fn split(chars: &Vec<char>, sep: char) -> (out: Vec<Vec<char>>)
    ensures
        pieces(out@) == split_on(chars@, sep),
{
    let mut out: Vec<Vec<char>> = Vec::new();
    let mut piece: Vec<char> = Vec::new();
    let mut i: usize = 0;
    assert(chars@.take(0) == Seq::<char>::empty());
    assert(pieces(out@).push(piece@) == seq![Seq::<char>::empty()]);
    while i < chars.len()
        invariant
            i <= chars.len(),
            pieces(out@).push(piece@) == split_on(chars@.take(i as int), sep),
        decreases chars.len() - i,
    {
        let c = chars[i];
        let ghost before = split_on(chars@.take(i as int), sep);
        let ghost done = pieces(out@);
        let ghost open = piece@;
        assert(chars@.take(i + 1).drop_last() == chars@.take(i as int));
        assert(chars@.take(i + 1).last() == c);
        assert(before.last() == open);
        assert(before.drop_last() == done);
        if c == sep {
            out.push(piece);
            piece = Vec::new();
            assert(pieces(out@) == done.push(open));
        } else {
            piece.push(c);
        }
        i += 1;
    }
    assert(chars@.take(chars.len() as int) == chars@);
    let ghost done = pieces(out@);
    let ghost open = piece@;
    out.push(piece);
    assert(pieces(out@) == done.push(open));
    out
}

} // verus!
