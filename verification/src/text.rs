//! Text helpers shared by the protocol and the HTTP front end: comparing and
//! taking apart strings, decimal numbers, whitespace.

use vstd::prelude::*;
use vstd::utf8::{decode_utf8, encode_utf8, valid_utf8};

verus! {

/// Converts bytes to a `String` with `String::from_utf8`: `Some` exactly when
/// the bytes are well-formed UTF-8, and then the text they encode.
#[verifier::external_body]
pub(crate) fn string_from_utf8(bytes: Vec<u8>) -> (text: Option<String>)
    ensures
        text is Some <==> valid_utf8(bytes@),
        text matches Some(s) ==> s@ == decode_utf8(bytes@),
{
    match String::from_utf8(bytes) {
        Ok(s) => Some(s),
        Err(_) => None,
    }
}

/// What `str::to_uppercase` makes of a text: its upper case by the rules of
/// Unicode, which depend on no locale.
pub uninterp spec fn uppercase(text: Seq<char>) -> Seq<char>;

/// The upper case of `s`, by `str::to_uppercase`.
#[verifier::external_body]
pub(crate) fn to_uppercase(s: &str) -> (upper: String)
    ensures
        upper@ == uppercase(s@),
{
    s.to_uppercase()
}

/// Appends one character to a `String` with `String::push`.
#[verifier::external_body]
pub(crate) fn push_char(text: &mut String, c: char)
    ensures
        final(text)@ == old(text)@.push(c),
{
    text.push(c)
}

/// The characters of `s`, in order.
pub fn chars_of(s: &str) -> (chars: Vec<char>)
    ensures
        chars@ == s@,
{
    broadcast use vstd::string::group_string_axioms;

    let mut chars: Vec<char> = Vec::new();
    for c in it: s.chars()
        invariant
            it.seq() == s@,
            chars@ == it.seq().take(it.index() as int),
    {
        chars.push(c);
    }
    assert(chars@ == s@);
    chars
}

/// A `String` made of `chars`.
pub fn string_of(chars: &Vec<char>) -> (text: String)
    ensures
        text@ == chars@,
{
    let mut text = String::new();
    let mut i: usize = 0;
    while i < chars.len()
        invariant
            i <= chars.len(),
            text@ == chars@.take(i as int),
        decreases chars.len() - i,
    {
        push_char(&mut text, chars[i]);
        i += 1;
    }
    assert(chars@.take(i as int) == chars@);
    text
}

/// Whether two strings hold the same characters.
pub fn str_eq(a: &str, b: &str) -> (same: bool)
    ensures
        same == (a@ == b@),
{
    let x = a.as_bytes();
    let y = b.as_bytes();
    proof {
        vstd::utf8::encode_utf8_decode_utf8(a@);
        vstd::utf8::encode_utf8_decode_utf8(b@);
    }
    if x.len() != y.len() {
        return false;
    }
    let mut i: usize = 0;
    while i < x.len()
        invariant
            i <= x.len(),
            x.len() == y.len(),
            x@.take(i as int) == y@.take(i as int),
            x@ == encode_utf8(a@),
            y@ == encode_utf8(b@),
            decode_utf8(encode_utf8(a@)) == a@,
            decode_utf8(encode_utf8(b@)) == b@,
        decreases x.len() - i,
    {
        if x[i] != y[i] {
            assert(x@[i as int] != y@[i as int]);
            return false;
        }
        assert(x@.take(i + 1) == x@.take(i as int).push(x@[i as int]));
        assert(y@.take(i + 1) == y@.take(i as int).push(y@[i as int]));
        i += 1;
    }
    assert(x@ == x@.take(i as int));
    assert(y@ == y@.take(i as int));
    true
}

/// The UTF-8 encoding of one character holds an ASCII byte only where the
/// character is that ASCII character.
pub proof fn lemma_encoded_scalar_without(scalar: u32, byte: u8)
    requires
        byte < 0x80,
        scalar != byte,
    ensures
        forall|j: int|
            0 <= j < vstd::utf8::encode_scalar(scalar).len() ==> #[trigger] vstd::utf8::encode_scalar(
                scalar,
            )[j] != byte,
{
    assert(scalar <= 0x7F ==> (scalar & 0x7F) as u8 != byte) by (bit_vector)
        requires
            byte < 0x80,
            scalar != byte,
    ;
    assert((0xC0u8 | ((scalar >> 6) & 0x1F) as u8) >= 0x80 && (0xE0u8 | ((scalar >> 12) & 0x0F) as u8)
        >= 0x80 && (0xF0u8 | ((scalar >> 18) & 0x7) as u8) >= 0x80) by (bit_vector);
    assert((0x80u8 | (scalar & 0x3F) as u8) >= 0x80 && (0x80u8 | ((scalar >> 6) & 0x3F) as u8) >= 0x80
        && (0x80u8 | ((scalar >> 12) & 0x3F) as u8) >= 0x80) by (bit_vector);
}

/// The UTF-8 encoding of a text holds an ASCII byte only where the text
/// holds that ASCII character.
pub proof fn lemma_encoded_without(chars: Seq<char>, byte: u8)
    requires
        byte < 0x80,
        forall|i: int| 0 <= i < chars.len() ==> chars[i] as u32 != byte,
    ensures
        forall|j: int| 0 <= j < encode_utf8(chars).len() ==> #[trigger] encode_utf8(chars)[j] != byte,
    decreases chars.len(),
{
    if chars.len() > 0 {
        let head = vstd::utf8::encode_scalar(chars[0] as u32);
        let rest = chars.drop_first();
        lemma_encoded_scalar_without(chars[0] as u32, byte);
        assert forall|i: int| 0 <= i < rest.len() implies rest[i] as u32 != byte by {
            assert(rest[i] == chars[i + 1]);
        }
        lemma_encoded_without(rest, byte);
        assert forall|j: int| 0 <= j < encode_utf8(chars).len() implies #[trigger] encode_utf8(
            chars,
        )[j] != byte by {
            if j < head.len() {
                assert(encode_utf8(chars)[j] == head[j]);
            } else {
                assert(encode_utf8(chars)[j] == encode_utf8(rest)[j - head.len()]);
            }
        }
    }
}

/// The ASCII digit for `d`, a number below ten.
pub open spec fn digit_byte(d: nat) -> u8 {
    (0x30 + d) as u8
}

/// The decimal digits of `n` as ASCII bytes, most significant first, with no
/// leading zero but for zero itself.
pub open spec fn decimal_digits(n: nat) -> Seq<u8>
    decreases n,
{
    if n < 10 {
        seq![digit_byte(n)]
    } else {
        decimal_digits(n / 10).push(digit_byte(n % 10))
    }
}

/// The decimal digits of `n`, with a zero in front where there is only one.
pub open spec fn two_digits(n: nat) -> Seq<u8> {
    if n < 10 {
        seq![0x30u8] + decimal_digits(n)
    } else {
        decimal_digits(n)
    }
}

/// `bytes` read as characters, one per byte.
pub open spec fn ascii_chars(bytes: Seq<u8>) -> Seq<char> {
    Seq::new(bytes.len(), |i: int| bytes[i] as char)
}

/// `n` written the way it is printed: a minus sign for a negative number,
/// then its decimal digits.
pub open spec fn decimal_text(n: int) -> Seq<char> {
    if n < 0 {
        seq!['-'] + ascii_chars(decimal_digits((-n) as nat))
    } else {
        ascii_chars(decimal_digits(n as nat))
    }
}

/// Appends the decimal digits of `n` to `out`.
pub fn push_decimal(out: &mut Vec<u8>, n: u64)
    ensures
        final(out)@ == old(out)@ + decimal_digits(n as nat),
    decreases n,
{
    if n >= 10 {
        push_decimal(out, n / 10);
    }
    let d: u8 = (n % 10) as u8;
    out.push(0x30 + d);
    assert(final(out)@ == old(out)@ + decimal_digits(n as nat)) by {
        if n >= 10 {
            assert(old(out)@ + decimal_digits((n / 10) as nat).push(digit_byte((n % 10) as nat))
                == (old(out)@ + decimal_digits((n / 10) as nat)).push(digit_byte((n % 10) as nat)));
        }
    }
}

/// Appends the decimal digits of `n` to `out`, with a zero in front where
/// there is only one.
pub fn push_two_digits(out: &mut Vec<u8>, n: u64)
    ensures
        final(out)@ == old(out)@ + two_digits(n as nat),
{
    if n < 10 {
        out.push(0x30);
    }
    push_decimal(out, n);
    assert(final(out)@ == old(out)@ + two_digits(n as nat));
}

/// Appends the decimal digits of `n` to `text`.
pub fn push_unsigned_text(text: &mut String, n: u64)
    ensures
        final(text)@ == old(text)@ + decimal_text(n as int),
{
    let mut digits: Vec<u8> = Vec::new();
    push_decimal(&mut digits, n);
    let mut i: usize = 0;
    while i < digits.len()
        invariant
            i <= digits.len(),
            text@ == old(text)@ + ascii_chars(digits@).take(i as int),
        decreases digits.len() - i,
    {
        push_char(text, digits[i] as char);
        assert(ascii_chars(digits@).take(i + 1) == ascii_chars(digits@).take(i as int).push(
            digits@[i as int] as char,
        ));
        i += 1;
    }
    assert(ascii_chars(digits@).take(i as int) == ascii_chars(digits@));
}

/// Appends `n`, as it is printed, to `text`.
pub fn push_decimal_text(text: &mut String, n: i64)
    ensures
        final(text)@ == old(text)@ + decimal_text(n as int),
{
    if n < 0 {
        push_char(text, '-');
        let magnitude: u64 = if n == i64::MIN {
            0x8000_0000_0000_0000u64
        } else {
            (-n) as u64
        };
        push_unsigned_text(text, magnitude);
        assert(final(text)@ == old(text)@ + decimal_text(n as int));
    } else {
        push_unsigned_text(text, n as u64);
    }
}

/// Whether `c` is one of the ten ASCII digits.
pub open spec fn is_digit(c: char) -> bool {
    '0' <= c <= '9'
}

/// Whether every character of `s` is an ASCII digit.
pub open spec fn all_digits(s: Seq<char>) -> bool {
    forall|i: int| 0 <= i < s.len() ==> is_digit(#[trigger] s[i])
}

/// The number that a run of ASCII digits denotes; zero for the empty run.
pub open spec fn digits_value(s: Seq<char>) -> nat
    decreases s.len(),
{
    if s.len() == 0 {
        0
    } else {
        (digits_value(s.drop_last()) * 10 + (s.last() as u32 - '0' as u32)) as nat
    }
}

/// The value of `s` as a decimal `i32`: an optional `+` or `-`, then one or
/// more ASCII digits and nothing else, denoting a number that an `i32` holds.
pub open spec fn parse_i32_spec(s: Seq<char>) -> Option<i32> {
    let signed = s.len() > 0 && (s[0] == '-' || s[0] == '+');
    let body = if signed { s.skip(1) } else { s };
    let value = if s.len() > 0 && s[0] == '-' {
        -(digits_value(body) as int)
    } else {
        digits_value(body) as int
    };
    if body.len() > 0 && all_digits(body) && i32::MIN <= value <= i32::MAX {
        Some(value as i32)
    } else {
        None
    }
}

/// The value of `s` as a decimal `usize`: an optional `+`, then one or more
/// ASCII digits and nothing else, denoting a number that a `usize` holds.
pub open spec fn parse_usize_spec(s: Seq<char>) -> Option<usize> {
    let body = if s.len() > 0 && s[0] == '+' { s.skip(1) } else { s };
    if body.len() > 0 && all_digits(body) && digits_value(body) <= usize::MAX {
        Some(digits_value(body) as usize)
    } else {
        None
    }
}

/// A longer run of digits never denotes a smaller number than its prefix.
pub proof fn lemma_digits_value_grows(s: Seq<char>, k: int)
    requires
        0 <= k <= s.len(),
        all_digits(s),
    ensures
        digits_value(s.take(k)) <= digits_value(s),
    decreases s.len() - k,
{
    if k == s.len() {
        assert(s.take(k) == s);
    } else {
        lemma_digits_value_grows(s, k + 1);
        assert(s.take(k + 1).drop_last() == s.take(k));
        assert(is_digit(s.take(k + 1).last()));
    }
}

/// Reads `s` as a decimal `i32`.
#[verifier::loop_isolation(false)]
pub fn parse_i32(s: &Vec<char>) -> (value: Option<i32>)
    ensures
        value == parse_i32_spec(s@),
{
    let n = s.len();
    if n == 0 {
        return None;
    }
    let negative = s[0] == '-';
    let start: usize = if s[0] == '-' || s[0] == '+' { 1 } else { 0 };
    let ghost body = if start == 1 { s@.skip(1) } else { s@ };
    if start == n {
        return None;
    }
    let mut magnitude: u64 = 0;
    let mut i: usize = start;
    while i < n
        invariant
            start <= i <= n,
            all_digits(body.take(i - start)),
            magnitude == digits_value(body.take(i - start)),
            magnitude <= 0x8000_0000,
        decreases n - i,
    {
        let c = s[i];
        if !(c >= '0' && c <= '9') {
            assert(!is_digit(body[i - start]));
            return None;
        }
        let digit: u64 = (c as u32 - '0' as u32) as u64;
        assert(body.take(i + 1 - start).drop_last() == body.take(i - start));
        assert(body.take(i + 1 - start).last() == c);
        assert(all_digits(body.take(i + 1 - start))) by {
            assert forall|j: int| 0 <= j < i + 1 - start implies is_digit(
                #[trigger] body.take(i + 1 - start)[j],
            ) by {
                if j < i - start {
                    assert(body.take(i - start)[j] == body.take(i + 1 - start)[j]);
                }
            }
        }
        let next: u64 = magnitude * 10 + digit;
        if next > 0x8000_0000 {
            // Too large already; what follows can only confirm it or be no digit at all.
            let mut j: usize = i + 1;
            while j < n
                invariant
                    i < j <= n,
                    all_digits(body.take(j - start)),
                decreases n - j,
            {
                let d = s[j];
                if !(d >= '0' && d <= '9') {
                    assert(!is_digit(body[j - start]));
                    return None;
                }
                assert(all_digits(body.take(j + 1 - start))) by {
                    assert forall|k: int| 0 <= k < j + 1 - start implies is_digit(
                        #[trigger] body.take(j + 1 - start)[k],
                    ) by {
                        if k < j - start {
                            assert(body.take(j - start)[k] == body.take(j + 1 - start)[k]);
                        }
                    }
                }
                j += 1;
            }
            proof {
                assert(body.take(n - start) == body);
                lemma_digits_value_grows(body, i + 1 - start);
            }
            return None;
        }
        magnitude = next;
        i += 1;
    }
    assert(body.take(n - start) == body);
    if negative {
        if magnitude == 0x8000_0000 {
            Some(i32::MIN)
        } else {
            Some(-(magnitude as i32))
        }
    } else if magnitude > 0x7fff_ffff {
        None
    } else {
        Some(magnitude as i32)
    }
}

/// Reads `s` as a decimal `usize`.
#[verifier::loop_isolation(false)]
pub fn parse_usize(s: &Vec<char>) -> (value: Option<usize>)
    ensures
        value == parse_usize_spec(s@),
{
    let n = s.len();
    if n == 0 {
        return None;
    }
    let start: usize = if s[0] == '+' { 1 } else { 0 };
    let ghost body = if start == 1 { s@.skip(1) } else { s@ };
    if start == n {
        return None;
    }
    let mut magnitude: usize = 0;
    let mut overflow = false;
    let mut i: usize = start;
    while i < n
        invariant
            start <= i <= n,
            all_digits(body.take(i - start)),
            !overflow ==> magnitude == digits_value(body.take(i - start)),
            overflow ==> digits_value(body.take(i - start)) > usize::MAX,
        decreases n - i,
    {
        let c = s[i];
        if !(c >= '0' && c <= '9') {
            assert(!is_digit(body[i - start]));
            return None;
        }
        let digit: usize = (c as u32 - '0' as u32) as usize;
        assert(body.take(i + 1 - start).drop_last() == body.take(i - start));
        assert(body.take(i + 1 - start).last() == c);
        assert(all_digits(body.take(i + 1 - start))) by {
            assert forall|j: int| 0 <= j < i + 1 - start implies is_digit(
                #[trigger] body.take(i + 1 - start)[j],
            ) by {
                if j < i - start {
                    assert(body.take(i - start)[j] == body.take(i + 1 - start)[j]);
                }
            }
        }
        if !overflow {
            match magnitude.checked_mul(10) {
                Some(tens) => match tens.checked_add(digit) {
                    Some(next) => { magnitude = next; },
                    None => { overflow = true; },
                },
                None => { overflow = true; },
            }
        }
        i += 1;
    }
    assert(body.take(n - start) == body);
    if overflow {
        None
    } else {
        Some(magnitude)
    }
}

/// Whether `c` is white space: the characters with the Unicode property
/// `White_Space`.
pub open spec fn is_space(c: char) -> bool {
    let u = c as u32;
    ||| 0x09 <= u <= 0x0d
    ||| u == 0x20
    ||| u == 0x85
    ||| u == 0xa0
    ||| u == 0x1680
    ||| 0x2000 <= u <= 0x200a
    ||| u == 0x2028
    ||| u == 0x2029
    ||| u == 0x202f
    ||| u == 0x205f
    ||| u == 0x3000
}

/// Tells whether `c` is white space.
pub fn is_whitespace(c: char) -> (space: bool)
    ensures
        space == is_space(c),
{
    let u: u32 = c as u32;
    (0x09 <= u && u <= 0x0d) || u == 0x20 || u == 0x85 || u == 0xa0 || u == 0x1680 || (0x2000 <= u
        && u <= 0x200a) || u == 0x2028 || u == 0x2029 || u == 0x202f || u == 0x205f || u == 0x3000
}

/// `s` without the white space it starts with.
pub open spec fn trim_start(s: Seq<char>) -> Seq<char>
    decreases s.len(),
{
    if s.len() > 0 && is_space(s[0]) {
        trim_start(s.skip(1))
    } else {
        s
    }
}

/// `s` without the white space it ends with.
pub open spec fn trim_end(s: Seq<char>) -> Seq<char>
    decreases s.len(),
{
    if s.len() > 0 && is_space(s.last()) {
        trim_end(s.drop_last())
    } else {
        s
    }
}

/// `s` without the white space at either end.
pub open spec fn trim(s: Seq<char>) -> Seq<char> {
    trim_end(trim_start(s))
}

/// `s` without the run of `c` it starts with.
pub open spec fn strip_leading(s: Seq<char>, c: char) -> Seq<char>
    decreases s.len(),
{
    if s.len() > 0 && s[0] == c {
        strip_leading(s.skip(1), c)
    } else {
        s
    }
}

/// Tells whether `chars` holds `c`.
pub fn has_char(chars: &Vec<char>, c: char) -> (found: bool)
    ensures
        found == chars@.contains(c),
{
    let mut i: usize = 0;
    while i < chars.len()
        invariant
            i <= chars.len(),
            forall|j: int| 0 <= j < i ==> chars@[j] != c,
        decreases chars.len() - i,
    {
        if chars[i] == c {
            return true;
        }
        i += 1;
    }
    false
}

/// The pieces of `s` between occurrences of `sep`, in order. A text with `k`
/// separators has `k + 1` pieces, some of them possibly empty.
pub open spec fn split(s: Seq<char>, sep: char) -> Seq<Seq<char>>
    decreases s.len(),
{
    if s.len() == 0 {
        seq![Seq::empty()]
    } else {
        let before = split(s.drop_last(), sep);
        if s.last() == sep {
            before.push(Seq::empty())
        } else {
            before.drop_last().push(before.last().push(s.last()))
        }
    }
}

/// A text always has a first piece, whatever the separator.
pub proof fn lemma_split_has_a_piece(s: Seq<char>, sep: char)
    ensures
        split(s, sep).len() >= 1,
    decreases s.len(),
{
    if s.len() > 0 {
        lemma_split_has_a_piece(s.drop_last(), sep);
    }
}

/// A text without the separator is its own single piece.
pub proof fn lemma_split_without(s: Seq<char>, sep: char)
    requires
        !s.contains(sep),
    ensures
        split(s, sep) == seq![s],
    decreases s.len(),
{
    if s.len() == 0 {
        assert(s == Seq::<char>::empty());
    } else {
        assert(s.last() != sep) by {
            assert(s.contains(s[s.len() - 1]));
        }
        assert forall|i: int| 0 <= i < s.drop_last().len() implies s.drop_last()[i] != sep by {
            assert(s.contains(s[i]));
        }
        lemma_split_without(s.drop_last(), sep);
        assert(s.drop_last().push(s.last()) == s);
    }
}

/// Two texts without the separator, put together with one between them,
/// split into those two.
pub proof fn lemma_split_once(a: Seq<char>, b: Seq<char>, sep: char)
    requires
        !a.contains(sep),
        !b.contains(sep),
    ensures
        split(a + seq![sep] + b, sep) == seq![a, b],
    decreases b.len(),
{
    let whole = a + seq![sep] + b;
    if b.len() == 0 {
        assert(whole.drop_last() == a);
        assert(b == Seq::<char>::empty());
        lemma_split_without(a, sep);
    } else {
        assert(whole.drop_last() == a + seq![sep] + b.drop_last());
        assert(whole.last() == b.last());
        assert(b.last() != sep) by {
            assert(b.contains(b[b.len() - 1]));
        }
        assert forall|i: int| 0 <= i < b.drop_last().len() implies b.drop_last()[i] != sep by {
            assert(b.contains(b[i]));
        }
        lemma_split_once(a, b.drop_last(), sep);
        assert(b.drop_last().push(b.last()) == b);
    }
}

/// A text that holds the separator has a second piece.
pub proof fn lemma_split_at_separator(s: Seq<char>, sep: char)
    requires
        s.contains(sep),
    ensures
        split(s, sep).len() >= 2,
    decreases s.len(),
{
    let i = choose|i: int| 0 <= i < s.len() && s[i] == sep;
    lemma_split_has_a_piece(s.drop_last(), sep);
    if s.last() != sep {
        assert(s.drop_last()[i] == sep);
        lemma_split_at_separator(s.drop_last(), sep);
    }
}

/// The character sequences that a vector of character vectors holds.
pub open spec fn pieces(v: Seq<Vec<char>>) -> Seq<Seq<char>> {
    Seq::new(v.len(), |i: int| v[i]@)
}

/// Copies `chars[from..to]`.
fn copy_range(chars: &Vec<char>, from: usize, to: usize) -> (out: Vec<char>)
    requires
        from <= to <= chars.len(),
    ensures
        out@ == chars@.subrange(from as int, to as int),
{
    let mut out: Vec<char> = Vec::new();
    let mut i: usize = from;
    while i < to
        invariant
            from <= i <= to <= chars.len(),
            out@ == chars@.subrange(from as int, i as int),
        decreases to - i,
    {
        out.push(chars[i]);
        assert(chars@.subrange(from as int, i + 1) == chars@.subrange(from as int, i as int).push(
            chars@[i as int],
        ));
        i += 1;
    }
    out
}

/// Removes the white space at both ends of `chars`.
pub fn trimmed(chars: &Vec<char>) -> (out: Vec<char>)
    ensures
        out@ == trim(chars@),
{
    let n = chars.len();
    let mut from: usize = 0;
    assert(chars@.skip(0) == chars@);
    while from < n && is_whitespace(chars[from])
        invariant
            from <= n == chars.len(),
            trim_start(chars@) == trim_start(chars@.skip(from as int)),
        decreases n - from,
    {
        assert(chars@.skip(from as int).skip(1) == chars@.skip(from + 1));
        from += 1;
    }
    let ghost rest = chars@.skip(from as int);
    assert(trim_start(chars@) == rest);
    let mut to: usize = n;
    assert(rest.take(n - from) == rest);
    while to > from && is_whitespace(chars[to - 1])
        invariant
            from <= to <= n == chars.len(),
            rest == chars@.skip(from as int),
            trim_end(rest) == trim_end(rest.take(to - from)),
        decreases to,
    {
        assert(rest.take(to - from).drop_last() == rest.take(to - 1 - from));
        to -= 1;
    }
    assert(trim_end(rest) == rest.take(to - from));
    assert(rest.take(to - from) == chars@.subrange(from as int, to as int));
    copy_range(chars, from, to)
}

/// Removes the run of `c` at the start of `chars`.
pub fn without_leading(chars: &Vec<char>, c: char) -> (out: Vec<char>)
    ensures
        out@ == strip_leading(chars@, c),
{
    let n = chars.len();
    let mut from: usize = 0;
    assert(chars@.skip(0) == chars@);
    while from < n && chars[from] == c
        invariant
            from <= n == chars.len(),
            strip_leading(chars@, c) == strip_leading(chars@.skip(from as int), c),
        decreases n - from,
    {
        assert(chars@.skip(from as int).skip(1) == chars@.skip(from + 1));
        from += 1;
    }
    assert(chars@.skip(from as int) == chars@.subrange(from as int, n as int));
    copy_range(chars, from, n)
}

/// Splits `chars` at every `sep`.
pub fn split_at_each(chars: &Vec<char>, sep: char) -> (out: Vec<Vec<char>>)
    ensures
        pieces(out@) == split(chars@, sep),
{
    let n = chars.len();
    let mut out: Vec<Vec<char>> = Vec::new();
    let mut current: Vec<char> = Vec::new();
    let mut i: usize = 0;
    assert(chars@.take(0) == Seq::<char>::empty());
    assert(pieces(out@).push(current@) == split(chars@.take(0), sep));
    while i < n
        invariant
            i <= n == chars.len(),
            pieces(out@).push(current@) == split(chars@.take(i as int), sep),
        decreases n - i,
    {
        let ghost before = split(chars@.take(i as int), sep);
        assert(chars@.take(i + 1).drop_last() == chars@.take(i as int));
        assert(before.last() == current@);
        assert(before.drop_last() == pieces(out@));
        let c = chars[i];
        if c == sep {
            out.push(current);
            current = Vec::new();
            assert(pieces(out@) == before);
        } else {
            current.push(c);
        }
        i += 1;
    }
    assert(chars@.take(n as int) == chars@);
    let ghost old_out = out@;
    out.push(current);
    assert(pieces(out@) == pieces(old_out).push(current@));
    out
}

} // verus!
