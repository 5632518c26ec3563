//! Text as the compiler sees it: a sequence of characters whose positions in
//! the source file are counted in UTF-8 bytes.
//!
//! Spans in NME are byte offsets, because that is what a Python tokenizer
//! hands out. The work itself is done on characters, so this module is the
//! one place where the two ways of counting meet.
use vstd::prelude::*;
use vstd::utf8::*;

verus! {

/// How many bytes one character takes in UTF-8.
pub open spec fn char_bytes(c: char) -> nat {
    encode_scalar(c as u32).len()
}

/// How many bytes a run of characters takes in UTF-8.
pub open spec fn bytes_of(s: Seq<char>) -> nat {
    encode_utf8(s).len()
}

/// The byte offset at which character `i` of `s` starts.
pub open spec fn offset_of(s: Seq<char>, i: int) -> nat {
    bytes_of(s.take(i))
}

/// How many characters of `s` start before byte `b`. This is also the index
/// of the first character that starts at or after `b`.
pub open spec fn chars_before(s: Seq<char>, b: int) -> nat
    decreases s.len(),
{
    if s.len() == 0 {
        0
    } else if bytes_of(s.drop_last()) < b {
        s.len()
    } else {
        chars_before(s.drop_last(), b)
    }
}

pub proof fn lemma_encode_concat(a: Seq<char>, b: Seq<char>)
    ensures
        encode_utf8(a + b) == encode_utf8(a) + encode_utf8(b),
    decreases a.len(),
{
    if a.len() == 0 {
        assert(a + b =~= b);
    } else {
        lemma_encode_concat(a.drop_first(), b);
        assert((a + b).drop_first() =~= a.drop_first() + b);
    }
}

pub proof fn lemma_char_bytes(c: char)
    ensures
        1 <= char_bytes(c) <= 4,
        (c as u32) < 0x80 ==> char_bytes(c) == 1,
        0x80 <= (c as u32) < 0x800 ==> char_bytes(c) == 2,
        0x800 <= (c as u32) < 0x10000 ==> char_bytes(c) == 3,
        0x10000 <= (c as u32) ==> char_bytes(c) == 4,
{
    char_is_scalar(c);
    let v = c as u32;
    if has_width_1_encoding(v) {
        assert(encode_scalar(v).len() == 1);
    } else if has_width_2_encoding(v) {
        assert(encode_scalar(v).len() == 2);
    } else if has_width_3_encoding(v) {
        assert(encode_scalar(v).len() == 3);
    } else {
        assert(encode_scalar(v).len() == 4);
    }
}

pub proof fn lemma_bytes_push(s: Seq<char>, c: char)
    ensures
        bytes_of(s.push(c)) == bytes_of(s) + char_bytes(c),
{
    lemma_encode_concat(s, seq![c]);
    assert(s.push(c) =~= s + seq![c]);
    assert(seq![c].drop_first() =~= Seq::<char>::empty());
    assert(encode_utf8(Seq::<char>::empty()) =~= Seq::<u8>::empty());
    assert(encode_utf8(seq![c]) =~= encode_scalar(c as u32) + encode_utf8(Seq::<char>::empty()));
}

pub proof fn lemma_bytes_concat(a: Seq<char>, b: Seq<char>)
    ensures
        bytes_of(a + b) == bytes_of(a) + bytes_of(b),
{
    lemma_encode_concat(a, b);
}

/// The offset of the next character is this one's plus its own width.
pub proof fn lemma_offset_step(s: Seq<char>, i: int)
    requires
        0 <= i < s.len(),
    ensures
        offset_of(s, i + 1) == offset_of(s, i) + char_bytes(s[i]),
{
    assert(s.take(i + 1) =~= s.take(i).push(s[i]));
    lemma_bytes_push(s.take(i), s[i]);
}

/// Offsets grow strictly with the character index.
pub proof fn lemma_offset_monotonic(s: Seq<char>, i: int, j: int)
    requires
        0 <= i <= j <= s.len(),
    ensures
        offset_of(s, i) <= offset_of(s, j),
        i < j ==> offset_of(s, i) < offset_of(s, j),
    decreases j - i,
{
    if i < j {
        lemma_offset_monotonic(s, i, j - 1);
        lemma_offset_step(s, j - 1);
        lemma_char_bytes(s[j - 1]);
    }
}

/// A prefix keeps the offsets of its own characters.
pub proof fn lemma_offset_prefix(s: Seq<char>, n: int, i: int)
    requires
        0 <= i <= n <= s.len(),
    ensures
        offset_of(s.take(n), i) == offset_of(s, i),
{
    assert(s.take(n).take(i) =~= s.take(i));
}

/// `chars_before` is the first index whose offset reaches `b`.
pub proof fn lemma_chars_before(s: Seq<char>, b: int, i: int)
    requires
        0 <= i <= s.len(),
        forall|j: int| 0 <= j < i ==> offset_of(s, j) < b,
        i == s.len() || offset_of(s, i) >= b,
    ensures
        chars_before(s, b) == i,
    decreases s.len(),
{
    if s.len() == 0 {
    } else if i == s.len() {
        assert(s.take(s.len() - 1) =~= s.drop_last());
        assert(offset_of(s, s.len() - 1) < b);
    } else {
        let last = s.len() - 1;
        assert(s.take(last) =~= s.drop_last());
        lemma_offset_monotonic(s, i, last);
        assert(bytes_of(s.drop_last()) >= b);
        assert forall|j: int| 0 <= j < i implies offset_of(s.drop_last(), j) < b by {
            lemma_offset_prefix(s, last, j);
        }
        if i < s.drop_last().len() {
            lemma_offset_prefix(s, last, i);
        }
        lemma_chars_before(s.drop_last(), b, i);
    }
}

/// `chars_before` never passes the end and never counts a character that
/// starts at or after the byte.
pub proof fn lemma_chars_before_bounds(s: Seq<char>, b: int)
    ensures
        chars_before(s, b) <= s.len(),
        forall|j: int| 0 <= j < chars_before(s, b) ==> offset_of(s, j) < b,
        chars_before(s, b) == s.len() || offset_of(s, chars_before(s, b) as int) >= b,
    decreases s.len(),
{
    if s.len() > 0 {
        let last = s.len() - 1;
        assert(s.take(last) =~= s.drop_last());
        if bytes_of(s.drop_last()) < b {
            assert forall|j: int| 0 <= j < s.len() implies offset_of(s, j) < b by {
                lemma_offset_monotonic(s, j, last);
            }
        } else {
            lemma_chars_before_bounds(s.drop_last(), b);
            let k = chars_before(s.drop_last(), b);
            assert forall|j: int| 0 <= j < k implies offset_of(s, j) < b by {
                lemma_offset_prefix(s, last, j);
            }
            if k < s.drop_last().len() {
                lemma_offset_prefix(s, last, k as int);
            }
        }
    }
}

/// The width in bytes of one character, as `char::len_utf8` gives it.
pub fn char_len_utf8(c: char) -> (n: usize)
    ensures
        n == char_bytes(c),
{
    proof {
        lemma_char_bytes(c);
    }
    let v = c as u32;
    if v < 0x80 {
        1
    } else if v < 0x800 {
        2
    } else if v < 0x10000 {
        3
    } else {
        4
    }
}

/// The characters of a string, with the promise that its UTF-8 length fits
/// in a `usize` (it is a string that exists).
pub fn chars_of(s: &str) -> (r: Vec<char>)
    ensures
        r@ == s@,
        bytes_of(s@) <= usize::MAX,
{
    let total = s.as_bytes().len();
    let mut r: Vec<char> = Vec::new();
    for c in it: s.chars()
        invariant
            r@ == it.seq().take(it.index() as int),
    {
        r.push(c);
    }
    r
}

/// `String::push` from the standard library: the text afterwards is the text
/// before with the character added at its end.
#[verifier::external_body]
fn push_char(s: &mut String, c: char)
    ensures
        final(s)@ == old(s)@.push(c),
{
    s.push(c);
}

/// Appends one character.
pub fn push(out: &mut String, c: char)
    ensures
        final(out)@ == old(out)@.push(c),
{
    push_char(out, c);
}

/// Appends a run of characters.
pub fn push_chars(out: &mut String, s: &[char])
    ensures
        final(out)@ == old(out)@ + s@,
{
    let ghost start = out@;
    let mut i: usize = 0;
    while i < s.len()
        invariant
            0 <= i <= s@.len(),
            out@ == start + s@.take(i as int),
        decreases s@.len() - i,
    {
        push_char(out, s[i]);
        i = i + 1;
        assert(s@.take(i as int) =~= s@.take(i - 1).push(s@[i - 1]));
    }
    assert(s@.take(s@.len() as int) =~= s@);
}

/// A string holding exactly these characters.
pub fn string_of(s: &[char]) -> (r: String)
    ensures
        r@ == s@,
{
    let mut r = String::new();
    push_chars(&mut r, s);
    r
}

/// Appends `n` copies of one character.
pub fn push_repeated(out: &mut String, c: char, n: usize)
    ensures
        final(out)@ == old(out)@ + Seq::new(n as nat, |_i: int| c),
{
    let ghost start = out@;
    let mut i: usize = 0;
    while i < n
        invariant
            0 <= i <= n,
            out@ == start + Seq::new(i as nat, |_j: int| c),
        decreases n - i,
    {
        push_char(out, c);
        i = i + 1;
        assert(start + Seq::new(i as nat, |_j: int| c) =~= (start + Seq::new((i - 1) as nat, |_j: int| c)).push(c));
    }
}

/// The decimal digits of a number, most significant first.
pub open spec fn decimal(n: nat) -> Seq<char>
    decreases n,
{
    if n < 10 {
        seq![digit_char(n)]
    } else {
        decimal(n / 10).push(digit_char(n % 10))
    }
}

/// The character that writes one decimal digit.
pub open spec fn digit_char(d: nat) -> char {
    if d == 0 {
        '0'
    } else if d == 1 {
        '1'
    } else if d == 2 {
        '2'
    } else if d == 3 {
        '3'
    } else if d == 4 {
        '4'
    } else if d == 5 {
        '5'
    } else if d == 6 {
        '6'
    } else if d == 7 {
        '7'
    } else if d == 8 {
        '8'
    } else {
        '9'
    }
}

/// How many digits `decimal` writes.
pub fn decimal_len(n: usize) -> (len: usize)
    ensures
        len == decimal(n as nat).len(),
        1 <= len <= n + 1,
    decreases n,
{
    if n < 10 {
        1
    } else {
        let rest = decimal_len(n / 10);
        rest + 1
    }
}

/// Whether two runs of characters are the same text.
pub fn same_chars(a: &[char], b: &[char]) -> (same: bool)
    ensures
        same == (a@ == b@),
{
    if a.len() != b.len() {
        return false;
    }
    let mut i: usize = 0;
    while i < a.len()
        invariant
            a@.len() == b@.len(),
            0 <= i <= a@.len(),
            forall|j: int| 0 <= j < i ==> a@[j] == b@[j],
        decreases a@.len() - i,
    {
        if a[i] != b[i] {
            return false;
        }
        i = i + 1;
    }
    assert(a@ =~= b@);
    true
}

/// Whether two strings are the same text.
pub fn same_text(a: &str, b: &str) -> (same: bool)
    ensures
        same == (a@ == b@),
{
    let a = chars_of(a);
    let b = chars_of(b);
    same_chars(a.as_slice(), b.as_slice())
}

/// Appends a number written in decimal, as `usize::to_string` writes it.
pub fn push_decimal(out: &mut String, n: usize)
    ensures
        final(out)@ == old(out)@ + decimal(n as nat),
    decreases n,
{
    if n >= 10 {
        push_decimal(out, n / 10);
    }
    let d = (n % 10) as u32;
    let c = char_from_digit(d);
    push_char(out, c);
    proof {
        if n >= 10 {
            assert(old(out)@ + decimal(n as nat) =~= (old(out)@ + decimal((n / 10) as nat)).push(c));
        } else {
            assert(old(out)@ + decimal(n as nat) =~= old(out)@.push(c));
        }
    }
}

fn char_from_digit(d: u32) -> (c: char)
    requires
        d < 10,
    ensures
        c == digit_char(d as nat),
{
    match d {
        0 => '0',
        1 => '1',
        2 => '2',
        3 => '3',
        4 => '4',
        5 => '5',
        6 => '6',
        7 => '7',
        8 => '8',
        _ => '9',
    }
}

} // verus!

verus! {

/// Unicode `White_Space`, the property `char::is_whitespace` and `str::trim`
/// go by.
pub open spec fn white_space(c: char) -> bool {
    let v = c as u32;
    (0x09 <= v <= 0x0D) || v == 0x20 || v == 0x85 || v == 0xA0 || v == 0x1680 || (0x2000 <= v
        <= 0x200A) || v == 0x2028 || v == 0x2029 || v == 0x202F || v == 0x205F || v == 0x3000
}

pub fn is_white_space(c: char) -> (white: bool)
    ensures
        white == white_space(c),
{
    let v = c as u32;
    (0x09 <= v && v <= 0x0D) || v == 0x20 || v == 0x85 || v == 0xA0 || v == 0x1680 || (0x2000
        <= v && v <= 0x200A) || v == 0x2028 || v == 0x2029 || v == 0x202F || v == 0x205F || v
        == 0x3000
}

/// `s` without the white space at its start.
pub open spec fn trim_start(s: Seq<char>) -> Seq<char>
    decreases s.len(),
{
    if s.len() > 0 && white_space(s[0]) {
        trim_start(s.drop_first())
    } else {
        s
    }
}

/// `s` without the white space at its end.
pub open spec fn trim_end(s: Seq<char>) -> Seq<char>
    decreases s.len(),
{
    if s.len() > 0 && white_space(s.last()) {
        trim_end(s.drop_last())
    } else {
        s
    }
}

/// `s` without white space at either end, as `str::trim` gives it.
pub open spec fn trim(s: Seq<char>) -> Seq<char> {
    trim_end(trim_start(s))
}

/// The bounds `trim` keeps: `s.subrange(from, to)` is the trimmed text.
pub fn trimmed_bounds(s: &[char]) -> (bounds: (usize, usize))
    ensures
        bounds.0 <= bounds.1 <= s@.len(),
        s@.subrange(bounds.0 as int, bounds.1 as int) == trim(s@),
{
    let mut from: usize = 0;
    proof {
        assert(s@.skip(0) =~= s@);
    }
    while from < s.len() && is_white_space(s[from])
        invariant
            0 <= from <= s@.len(),
            trim_start(s@) == trim_start(s@.skip(from as int)),
        decreases s@.len() - from,
    {
        proof {
            assert(s@.skip(from as int).drop_first() =~= s@.skip(from + 1));
        }
        from = from + 1;
    }
    let mut to: usize = s.len();
    proof {
        assert(trim_start(s@.skip(from as int)) == s@.skip(from as int));
        assert(s@.skip(from as int) =~= s@.subrange(from as int, s@.len() as int));
    }
    while to > from && is_white_space(s[to - 1])
        invariant
            from <= to <= s@.len(),
            trim(s@) == trim_end(s@.subrange(from as int, to as int)),
        decreases to - from,
    {
        proof {
            assert(s@.subrange(from as int, to as int).drop_last() =~= s@.subrange(from as int, to - 1));
        }
        to = to - 1;
    }
    (from, to)
}

/// The characters of `s` from `from` to `to`.
pub fn sub_chars(s: &[char], from: usize, to: usize) -> (part: Vec<char>)
    requires
        from <= to <= s@.len(),
    ensures
        part@ == s@.subrange(from as int, to as int),
{
    let mut part: Vec<char> = Vec::new();
    let mut i = from;
    while i < to
        invariant
            from <= i <= to <= s@.len(),
            part@ == s@.subrange(from as int, i as int),
        decreases to - i,
    {
        part.push(s[i]);
        i = i + 1;
        assert(part@ =~= s@.subrange(from as int, i as int));
    }
    part
}

/// The trimmed characters of `s`.
pub fn trimmed(s: &[char]) -> (t: Vec<char>)
    ensures
        t@ == trim(s@),
{
    let (from, to) = trimmed_bounds(s);
    sub_chars(s, from, to)
}

/// The Unicode `Alphabetic` or `Numeric` property, which
/// `char::is_alphanumeric` reports.
pub uninterp spec fn alphanumeric(c: char) -> bool;

/// `char::is_alphanumeric` from the standard library: true when the
/// character is Unicode `Alphabetic` or `Numeric`. The property tables are
/// named rather than restated; among ASCII characters the two properties
/// hold of exactly the letters and the digits.
#[verifier::external_body]
pub(crate) fn is_alphanumeric(c: char) -> (yes: bool)
    ensures
        yes == alphanumeric(c),
        (c as u32) < 128 ==> (yes <==> ('a' <= c <= 'z' || 'A' <= c <= 'Z' || '0' <= c <= '9')),
{
    c.is_alphanumeric()
}

pub open spec fn is_digit(c: char) -> bool {
    '0' <= c <= '9'
}

/// The value of a run of decimal digits.
pub open spec fn digits_value(s: Seq<char>) -> nat
    decreases s.len(),
{
    if s.len() == 0 {
        0
    } else {
        digits_value(s.drop_last()) * 10 + (s.last() as nat - '0' as nat) as nat
    }
}

/// `s` without the one sign character it may start with.
pub open spec fn sign_stripped(s: Seq<char>) -> Seq<char> {
    if s.len() > 0 && (s[0] == '-' || s[0] == '+') {
        s.drop_first()
    } else {
        s
    }
}

/// At least one character, and every one a decimal digit.
pub open spec fn all_digits(u: Seq<char>) -> bool {
    u.len() > 0 && forall|i: int| 0 <= i < u.len() ==> is_digit(#[trigger] u[i])
}

/// What `str::parse::<i64>` gives: an optional sign, at least one digit and
/// nothing else, within the range of `i64`.
pub open spec fn parse_i64(s: Seq<char>) -> Option<int> {
    let unsigned = sign_stripped(s);
    if !all_digits(unsigned) {
        None
    } else {
        let value = if s[0] == '-' {
            -(digits_value(unsigned) as int)
        } else {
            digits_value(unsigned) as int
        };
        if i64::MIN <= value <= i64::MAX {
            Some(value)
        } else {
            None
        }
    }
}

/// `str::parse::<i64>`, written out.
pub fn parse_i64_chars(s: &[char]) -> (value: Option<i64>)
    ensures
        match parse_i64(s@) {
            Some(v) => value == Some(v as i64),
            None => value is None,
        },
{
    let negative = s.len() > 0 && s[0] == '-';
    let from: usize = if s.len() > 0 && (s[0] == '-' || s[0] == '+') { 1 } else { 0 };
    let ghost unsigned = s@.subrange(from as int, s@.len() as int);
    proof {
        if from == 1 {
            assert(unsigned =~= s@.drop_first());
        } else {
            assert(unsigned =~= s@);
        }
    }
    if from >= s.len() {
        return None;
    }
    // The magnitude is gathered in a u128 so that i64::MIN, whose magnitude
    // is one past i64::MAX, is still representable.
    let mut magnitude: u128 = 0;
    let mut i = from;
    while i < s.len()
        invariant
            from <= i <= s@.len(),
            from < s@.len(),
            unsigned == s@.subrange(from as int, s@.len() as int),
            unsigned == sign_stripped(s@),
            negative == (s@.len() > 0 && s@[0] == '-'),
            forall|j: int| 0 <= j < i - from ==> is_digit(#[trigger] unsigned[j]),
            magnitude == digits_value(unsigned.take(i - from)),
            magnitude <= 0x8000_0000_0000_0000u128,
        decreases s@.len() - i,
    {
        let c = s[i];
        if !('0' <= c && c <= '9') {
            proof {
                assert(!is_digit(unsigned[i - from]));
                assert(!(forall|k: int| 0 <= k < unsigned.len() ==> is_digit(#[trigger] unsigned[k])));
                assert(!all_digits(unsigned));
            }
            return None;
        }
        let d = (c as u32 - '0' as u32) as u128;
        let next = magnitude * 10 + d;
        proof {
            assert(unsigned.take(i + 1 - from).drop_last() =~= unsigned.take(i - from));
            assert(unsigned.take(i + 1 - from).last() == c);
            assert(digits_value(unsigned.take(i + 1 - from)) == next);
        }
        if next > 0x8000_0000_0000_0000u128 {
            proof {
                if all_digits(unsigned) {
                    lemma_digits_grow(unsigned, i + 1 - from, unsigned.len() as int);
                    assert(unsigned.take(unsigned.len() as int) =~= unsigned);
                }
            }
            return None;
        }
        magnitude = next;
        i = i + 1;
    }
    proof {
        assert(unsigned.take(unsigned.len() as int) =~= unsigned);
        assert(i - from == unsigned.len());
        assert(forall|k: int| 0 <= k < unsigned.len() ==> is_digit(#[trigger] unsigned[k]));
        assert(all_digits(unsigned));
    }
    if negative {
        if magnitude == 0x8000_0000_0000_0000u128 {
            Some(i64::MIN)
        } else {
            Some(-(magnitude as i64))
        }
    } else if magnitude > 0x7FFF_FFFF_FFFF_FFFFu128 {
        None
    } else {
        Some(magnitude as i64)
    }
}

/// More digits never make a smaller number.
pub proof fn lemma_digits_grow(s: Seq<char>, i: int, j: int)
    requires
        0 <= i <= j <= s.len(),
        forall|k: int| 0 <= k < j ==> is_digit(#[trigger] s[k]),
    ensures
        digits_value(s.take(i)) <= digits_value(s.take(j)),
    decreases j - i,
{
    if i < j {
        lemma_digits_grow(s, i, j - 1);
        assert(s.take(j).drop_last() =~= s.take(j - 1));
        assert(is_digit(s[j - 1]));
    }
}

/// A number written as a signed decimal, as `i64::to_string` writes it.
pub open spec fn signed_decimal(v: int) -> Seq<char> {
    if v < 0 {
        seq!['-'] + decimal((-v) as nat)
    } else {
        decimal(v as nat)
    }
}

/// Appends a signed number in decimal.
pub fn push_signed(out: &mut String, v: i64)
    ensures
        final(out)@ == old(out)@ + signed_decimal(v as int),
{
    if v < 0 {
        push_char(out, '-');
        let magnitude: u64 = if v == i64::MIN { 0x8000_0000_0000_0000u64 } else { (-v) as u64 };
        push_decimal_u64(out, magnitude);
        proof {
            assert(old(out)@ + signed_decimal(v as int) =~= old(out)@.push('-') + decimal(magnitude as nat));
        }
    } else {
        push_decimal_u64(out, v as u64);
    }
}

/// Appends a `u64` written in decimal.
pub fn push_decimal_u64(out: &mut String, n: u64)
    ensures
        final(out)@ == old(out)@ + decimal(n as nat),
    decreases n,
{
    if n >= 10 {
        push_decimal_u64(out, n / 10);
    }
    let c = char_from_digit((n % 10) as u32);
    push_char(out, c);
    proof {
        if n >= 10 {
            assert(old(out)@ + decimal(n as nat) =~= (old(out)@ + decimal((n / 10) as nat)).push(c));
        } else {
            assert(old(out)@ + decimal(n as nat) =~= old(out)@.push(c));
        }
    }
}

} // verus!

verus! {

/// How many decimal digits `s` starts with.
pub open spec fn leading_digits(s: Seq<char>) -> nat
    decreases s.len(),
{
    if s.len() > 0 && is_digit(s[0]) {
        1 + leading_digits(s.drop_first())
    } else {
        0
    }
}

/// An ASCII letter in lower case; every other character as it is.
pub open spec fn ascii_lower(c: char) -> char {
    if 'A' <= c <= 'Z' {
        ((c as u32) + 32) as char
    } else {
        c
    }
}

pub open spec fn lower_ascii_text(s: Seq<char>) -> Seq<char> {
    Seq::new(s.len(), |i: int| ascii_lower(s[i]))
}

/// `e`, an optional sign and at least one digit, to the end of the text.
pub open spec fn exponent_part(s: Seq<char>) -> bool {
    s.len() > 0 && (s[0] == 'e' || s[0] == 'E') && all_digits(sign_stripped(s.drop_first()))
}

/// Digits with at most one decimal point and at least one digit somewhere,
/// then an optional exponent, to the end of the text.
pub open spec fn decimal_number(u: Seq<char>) -> bool {
    let whole = leading_digits(u) as int;
    if whole < u.len() && u[whole] == '.' {
        let fraction = leading_digits(u.skip(whole + 1)) as int;
        let end = whole + 1 + fraction;
        whole + fraction > 0 && (end == u.len() || exponent_part(u.skip(end)))
    } else {
        whole > 0 && (whole == u.len() || exponent_part(u.skip(whole)))
    }
}

/// What `str::parse::<f64>` accepts, which its documentation gives as a
/// grammar: an optional sign, then `inf`, `infinity`, `nan` (in any case) or a
/// decimal number with an optional exponent.
pub open spec fn float_literal(s: Seq<char>) -> bool {
    let u = sign_stripped(s);
    let lowered = lower_ascii_text(u);
    lowered == "inf"@ || lowered == "infinity"@ || lowered == "nan"@ || decimal_number(u)
}

/// How many digits `s` has from `from` on, before anything else.
fn count_digits(s: &[char], from: usize) -> (n: usize)
    requires
        from <= s@.len(),
    ensures
        n == leading_digits(s@.skip(from as int)),
        from + n <= s@.len(),
{
    let mut i = from;
    while i < s.len() && '0' <= s[i] && s[i] <= '9'
        invariant
            from <= i <= s@.len(),
            leading_digits(s@.skip(from as int)) == (i - from) + leading_digits(s@.skip(i as int)),
        decreases s@.len() - i,
    {
        proof {
            assert(s@.skip(i as int).drop_first() =~= s@.skip(i + 1));
        }
        i = i + 1;
    }
    i - from
}

pub fn lower_ascii(c: char) -> (l: char)
    ensures
        l == ascii_lower(c),
{
    if 'A' <= c && c <= 'Z' {
        ((c as u8) + 32) as char
    } else {
        c
    }
}

/// Whether `s`, lowered, is exactly `word`.
fn lowered_is(s: &[char], from: usize, word: &str) -> (same: bool)
    requires
        from <= s@.len(),
    ensures
        same == (lower_ascii_text(s@.skip(from as int)) == word@),
{
    let wanted = chars_of(word);
    if s.len() - from != wanted.len() {
        proof {
            assert(lower_ascii_text(s@.skip(from as int)).len() != wanted@.len());
        }
        return false;
    }
    let mut i: usize = 0;
    while i < wanted.len()
        invariant
            wanted@ == word@,
            from <= s@.len(),
            from + wanted@.len() == s@.len(),
            s@.len() <= usize::MAX,
            0 <= i <= wanted@.len(),
            forall|j: int| 0 <= j < i ==> ascii_lower(s@[from + j]) == wanted@[j],
        decreases wanted@.len() - i,
    {
        if lower_ascii(s[from + i]) != wanted[i] {
            proof {
                assert(lower_ascii_text(s@.skip(from as int))[i as int] != wanted@[i as int]);
                assert(lower_ascii_text(s@.skip(from as int)) != wanted@);
            }
            return false;
        }
        i = i + 1;
    }
    assert(lower_ascii_text(s@.skip(from as int)) =~= wanted@);
    true
}

/// Whether the characters from `from` on are an exponent part.
fn is_exponent_part(s: &[char], from: usize) -> (yes: bool)
    requires
        from <= s@.len(),
    ensures
        yes == exponent_part(s@.skip(from as int)),
{
    let ghost rest = s@.skip(from as int);
    if from >= s.len() || !(s[from] == 'e' || s[from] == 'E') {
        return false;
    }
    let mut digits_from = from + 1;
    if digits_from < s.len() && (s[digits_from] == '-' || s[digits_from] == '+') {
        digits_from = digits_from + 1;
    }
    proof {
        assert(rest.drop_first() =~= s@.skip(from + 1));
        assert(sign_stripped(rest.drop_first()) =~= s@.skip(digits_from as int));
    }
    let n = count_digits(s, digits_from);
    proof {
        let u = s@.skip(digits_from as int);
        if n == u.len() && n > 0 {
            assert forall|i: int| 0 <= i < u.len() implies is_digit(#[trigger] u[i]) by {
                lemma_leading_digits(u, i);
            }
        }
        if n < u.len() {
            lemma_leading_digits_stop(u);
        }
    }
    n > 0 && digits_from + n == s.len()
}

proof fn lemma_leading_digits(u: Seq<char>, i: int)
    requires
        0 <= i < leading_digits(u),
    ensures
        is_digit(u[i]),
    decreases u.len(),
{
    assert(u.len() > 0 && is_digit(u[0]));
    if i > 0 {
        lemma_leading_digits_bound(u.drop_first());
        lemma_leading_digits(u.drop_first(), i - 1);
        assert(u.drop_first()[i - 1] == u[i]);
    }
}

proof fn lemma_leading_digits_bound(u: Seq<char>)
    ensures
        leading_digits(u) <= u.len(),
    decreases u.len(),
{
    if u.len() > 0 && is_digit(u[0]) {
        lemma_leading_digits_bound(u.drop_first());
    }
}

proof fn lemma_leading_digits_stop(u: Seq<char>)
    requires
        leading_digits(u) < u.len(),
    ensures
        !is_digit(u[leading_digits(u) as int]),
    decreases u.len(),
{
    if u.len() > 0 && is_digit(u[0]) {
        lemma_leading_digits_stop(u.drop_first());
    }
}

/// Whether `str::parse::<f64>` accepts the text.
pub fn is_float_literal(s: &[char]) -> (yes: bool)
    ensures
        yes == float_literal(s@),
{
    let from: usize = if s.len() > 0 && (s[0] == '-' || s[0] == '+') { 1 } else { 0 };
    let ghost u = s@.skip(from as int);
    proof {
        assert(sign_stripped(s@) =~= u);
    }
    if lowered_is(s, from, "inf") || lowered_is(s, from, "infinity") || lowered_is(s, from, "nan") {
        return true;
    }
    let whole = count_digits(s, from);
    let after = from + whole;
    if after < s.len() && s[after] == '.' {
        let fraction = count_digits(s, after + 1);
        let end = after + 1 + fraction;
        proof {
            assert(u.skip(whole + 1) =~= s@.skip(after + 1));
            assert(u.skip(whole + 1 + fraction) =~= s@.skip(end as int));
        }
        whole + fraction > 0 && (end == s.len() || is_exponent_part(s, end))
    } else {
        proof {
            assert(u.skip(whole as int) =~= s@.skip(after as int));
        }
        whole > 0 && (after == s.len() || is_exponent_part(s, after))
    }
}

} // verus!

verus! {

/// Whether byte `b` is a character boundary of `s` (its end included).
pub open spec fn on_boundary(s: Seq<char>, b: int) -> bool {
    0 <= b <= bytes_of(s) && offset_of(s, chars_before(s, b) as int) == b
}

/// The characters of `s` from byte `start` to byte `end`, which is what
/// `&source[start..end]` holds when both are character boundaries.
pub open spec fn byte_slice(s: Seq<char>, start: int, end: int) -> Seq<char> {
    s.subrange(chars_before(s, start) as int, chars_before(s, end) as int)
}

/// More bytes never start fewer characters.
pub proof fn lemma_chars_before_monotonic(s: Seq<char>, a: int, b: int)
    requires
        a <= b,
    ensures
        chars_before(s, a) <= chars_before(s, b),
    decreases s.len(),
{
    if s.len() > 0 {
        if bytes_of(s.drop_last()) < a {
        } else if bytes_of(s.drop_last()) < b {
            lemma_chars_before_bounds(s.drop_last(), a);
        } else {
            lemma_chars_before_monotonic(s.drop_last(), a, b);
        }
    }
}

/// The index of the first character of `s` that starts at or after byte `b`.
pub fn char_index_at(s: &[char], b: usize) -> (i: usize)
    requires
        bytes_of(s@) <= usize::MAX,
    ensures
        i == chars_before(s@, b as int),
        i <= s@.len(),
{
    proof {
        assert(s@.take(s@.len() as int) =~= s@);
    }
    let mut i: usize = 0;
    let mut offset: usize = 0;
    while i < s.len() && offset < b
        invariant
            bytes_of(s@) <= usize::MAX,
            s@.take(s@.len() as int) == s@,
            0 <= i <= s@.len(),
            offset == offset_of(s@, i as int),
            forall|j: int| 0 <= j < i ==> offset_of(s@, j) < b,
        decreases s@.len() - i,
    {
        proof {
            lemma_offset_step(s@, i as int);
            lemma_offset_monotonic(s@, i + 1, s@.len() as int);
        }
        offset = offset + char_len_utf8(s[i]);
        i = i + 1;
    }
    proof {
        lemma_chars_before(s@, b as int, i as int);
    }
    i
}

/// Appends the characters of `s` between two byte offsets.
pub fn push_byte_slice(out: &mut String, s: &[char], start: usize, end: usize)
    requires
        bytes_of(s@) <= usize::MAX,
        start <= end,
    ensures
        final(out)@ == old(out)@ + byte_slice(s@, start as int, end as int),
{
    let i = char_index_at(s, start);
    let j = char_index_at(s, end);
    proof {
        lemma_chars_before_monotonic(s@, start as int, end as int);
    }
    let ghost before = out@;
    let mut k = i;
    while k < j
        invariant
            i <= k <= j <= s@.len(),
            out@ == before + s@.subrange(i as int, k as int),
        decreases j - k,
    {
        push_char(out, s[k]);
        k = k + 1;
        assert(out@ =~= before + s@.subrange(i as int, k as int));
    }
}

} // verus!
