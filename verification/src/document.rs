//! Reading and writing JSON documents with the `json` crate. A document is
//! kept as the crate's own value; this module names what the crate's
//! accessors return of it, so that what is built from a document, and what
//! document is built, can be stated.

use vstd::prelude::*;
use vstd::utf8::encode_utf8;

verus! {

/// The most digits that the fraction of a number may have for a text to be
/// read as JSON. The `json` crate counts the digits of a fraction in 16 bits.
pub const FRACTION_LIMIT: usize = 32768;

/// `json::JsonValue`, a parsed document or a part of one. Nothing is known
/// of a value but what the accessors below return of it.
#[verifier::external_type_specification]
#[verifier::external_body]
pub struct ExJsonValue(json::JsonValue);

/// `json::Error`, why a text is no JSON. It is carried out of the parser and
/// never looked into.
#[verifier::external_type_specification]
#[verifier::external_body]
pub struct ExJsonError(json::Error);

/// `json::object::Object`, the entries of an object while it is built.
#[verifier::external_type_specification]
#[verifier::external_body]
pub struct ExJsonObject(json::object::Object);

/// The document that `json::parse` makes of `text`, if it is JSON.
pub uninterp spec fn json_parsed(text: Seq<char>) -> Option<json::JsonValue>;

/// What indexing `value` by `key` gives: the member of that name where
/// `value` is an object that has one, and a null otherwise.
pub uninterp spec fn json_field(value: json::JsonValue, key: Seq<char>) -> json::JsonValue;

/// The members of `value` where it is an array, in order; none otherwise.
pub uninterp spec fn json_members(value: json::JsonValue) -> Seq<json::JsonValue>;

/// The entries of `value` where it is an object, each a key and a value, in
/// the order in which they were added; none otherwise.
pub uninterp spec fn json_entries(value: json::JsonValue) -> Seq<(Seq<char>, json::JsonValue)>;

/// The entries of an object that is being built, in the order in which they
/// were added.
pub uninterp spec fn object_entries(object: json::object::Object) -> Seq<
    (Seq<char>, json::JsonValue),
>;

/// The values of the entries of `value`, in order.
pub open spec fn entry_values_of(value: json::JsonValue) -> Seq<json::JsonValue> {
    Seq::new(json_entries(value).len(), |i: int| json_entries(value)[i].1)
}

/// The parts of `value` where it is a number: whether its sign is positive,
/// its digits as one integer, and the power of ten to multiply them by.
pub uninterp spec fn json_number(value: json::JsonValue) -> Option<(bool, u64, i16)>;

/// The text of `value` where it is a string.
pub uninterp spec fn json_text(value: json::JsonValue) -> Option<Seq<char>>;

/// The truth value of `value` where it is a boolean.
pub uninterp spec fn json_bool(value: json::JsonValue) -> Option<bool>;

/// The text that `value` is written out as, without white space.
pub uninterp spec fn json_dump(value: json::JsonValue) -> Seq<char>;

/// Where the scan of a text for fractions stands: inside a string or not,
/// after a backslash in a string or not, and how many digits of a fraction
/// have gone by since its point.
pub struct Scan {
    pub in_string: bool,
    pub escaped: bool,
    pub in_fraction: bool,
    pub fraction_digits: nat,
}

/// The scan of a text before its first byte.
pub open spec fn scan_start() -> Scan {
    Scan { in_string: false, escaped: false, in_fraction: false, fraction_digits: 0 }
}

/// The scan after one more byte. A quotation mark opens a string, and the
/// next one that no backslash stands before closes it. Outside a string a
/// point begins a fraction, which goes on as long as digits follow.
pub open spec fn scan_step(scan: Scan, byte: u8) -> Scan {
    if scan.in_string {
        Scan {
            in_string: scan.escaped || byte != 0x22,
            escaped: !scan.escaped && byte == 0x5C,
            in_fraction: false,
            fraction_digits: 0,
        }
    } else if byte == 0x22 {
        Scan { in_string: true, escaped: false, in_fraction: false, fraction_digits: 0 }
    } else if byte == 0x2E {
        Scan { in_string: false, escaped: false, in_fraction: true, fraction_digits: 0 }
    } else if scan.in_fraction && 0x30 <= byte <= 0x39 {
        Scan { fraction_digits: scan.fraction_digits + 1, ..scan }
    } else {
        scan_start()
    }
}

/// The scan of `bytes` up to the position `end`.
pub open spec fn scanned(bytes: Seq<u8>, end: int) -> Scan
    decreases end,
{
    if 0 < end <= bytes.len() {
        scan_step(scanned(bytes, end - 1), bytes[end - 1])
    } else {
        scan_start()
    }
}

/// Whether no point outside a string in `bytes` has more than
/// `FRACTION_LIMIT` digits after it.
pub open spec fn fractions_within_limit(bytes: Seq<u8>) -> bool {
    forall|end: int|
        0 <= end <= bytes.len() ==> (#[trigger] scanned(bytes, end)).fraction_digits
            <= FRACTION_LIMIT
}

/// The document that `text` is read as: what `json::parse` makes of it, and
/// none where it is no JSON or holds a fraction beyond the limit.
pub open spec fn json_document(text: Seq<char>) -> Option<json::JsonValue> {
    if fractions_within_limit(encode_utf8(text)) {
        json_parsed(text)
    } else {
        None
    }
}

/// The unsigned integer that the parts of a number denote: its digits,
/// where the sign is positive and the exponent zero. A number that is
/// written with a fraction or an exponent is no integer.
pub open spec fn unsigned_of(parts: Option<(bool, u64, i16)>) -> Option<u64> {
    match parts {
        Some((positive, digits, exponent)) => if positive && exponent == 0 {
            Some(digits)
        } else {
            None
        },
        None => None,
    }
}

/// `digits` taken as a signed integer of 64 bits: itself below 2^63, and
/// 2^64 less from there on.
pub open spec fn as_signed(digits: u64) -> int {
    if digits < 0x8000_0000_0000_0000 {
        digits as int
    } else {
        digits - 0x1_0000_0000_0000_0000
    }
}

/// The signed integer that the parts of a number denote, where the exponent
/// is zero: its digits, taken as a signed integer, with its sign.
pub open spec fn signed_of(parts: Option<(bool, u64, i16)>) -> Option<i64> {
    match parts {
        Some((positive, digits, exponent)) => if exponent == 0 {
            Some((if positive { as_signed(digits) } else { -as_signed(digits) }) as i64)
        } else {
            None
        },
        None => None,
    }
}

/// Whether `parts` are those of the negative number with the digits 2^63 and
/// no exponent.
pub open spec fn negates_to_overflow(parts: Option<(bool, u64, i16)>) -> bool {
    parts == Some((false, 0x8000_0000_0000_0000u64, 0i16))
}

/// The parts of the number `n`: its sign, its magnitude, no exponent.
pub open spec fn parts_of(n: i64) -> (bool, u64, i16) {
    if n < 0 {
        (false, (-n) as u64, 0i16)
    } else {
        (true, n as u64, 0i16)
    }
}

/// The position of the entry with the key `key` in `entries`, or their
/// number where no entry has it.
pub open spec fn key_position(entries: Seq<(Seq<char>, json::JsonValue)>, key: Seq<char>) -> int
    decreases entries.len(),
{
    if entries.len() == 0 || entries[0].0 == key {
        0
    } else {
        1 + key_position(entries.skip(1), key)
    }
}

/// `entries` with `value` under `key`: in the place of the entry that had
/// the key, or at the end where none had it.
pub open spec fn with_entry(
    entries: Seq<(Seq<char>, json::JsonValue)>,
    key: Seq<char>,
    value: json::JsonValue,
) -> Seq<(Seq<char>, json::JsonValue)> {
    if key_position(entries, key) < entries.len() {
        entries.update(key_position(entries, key), (key, value))
    } else {
        entries.push((key, value))
    }
}

/// Parses `text` with `json::parse`. A text with a fraction of more than
/// `FRACTION_LIMIT` digits is left out: the crate's count of them overflows.
#[verifier::external_body]
fn parse_text(text: &str) -> (document: Result<json::JsonValue, json::Error>)
    requires
        fractions_within_limit(encode_utf8(text@)),
    ensures
        match document {
            Ok(value) => json_parsed(text@) == Some(value),
            Err(_) => json_parsed(text@) is None,
        },
{
    json::parse(text)
}

/// Indexes `value` by `key`, which never fails: `JsonValue`'s `Index<&str>`.
#[verifier::external_body]
pub(crate) fn field<'a>(value: &'a json::JsonValue, key: &str) -> (member: &'a json::JsonValue)
    ensures
        *member == json_field(*value, key@),
{
    &value[key]
}

/// The members of `value`, as `JsonValue::members` walks them.
#[verifier::external_body]
pub(crate) fn members(value: &json::JsonValue) -> (items: Vec<&json::JsonValue>)
    ensures
        items@.len() == json_members(*value).len(),
        forall|i: int| 0 <= i < items@.len() ==> *#[trigger] items@[i] == json_members(*value)[i],
{
    value.members().collect()
}

/// The values of the entries of `value`, as `JsonValue::entries` walks them.
#[verifier::external_body]
pub(crate) fn entry_values(value: &json::JsonValue) -> (items: Vec<&json::JsonValue>)
    ensures
        items@.len() == entry_values_of(*value).len(),
        forall|i: int|
            0 <= i < items@.len() ==> *#[trigger] items@[i] == entry_values_of(*value)[i],
{
    value.entries().map(|entry| entry.1).collect()
}

/// The parts of `value` as a number, by `JsonValue::as_number` and
/// `Number::as_parts`.
#[verifier::external_body]
pub(crate) fn number_parts(value: &json::JsonValue) -> (parts: Option<(bool, u64, i16)>)
    ensures
        parts == json_number(*value),
{
    match value.as_number() {
        Some(number) => Some(number.as_parts()),
        None => None,
    }
}

/// The text of `value`, by `JsonValue::as_str`.
#[verifier::external_body]
pub(crate) fn text<'a>(value: &'a json::JsonValue) -> (text: Option<&'a str>)
    ensures
        match text {
            Some(t) => json_text(*value) == Some(t@),
            None => json_text(*value) is None,
        },
{
    value.as_str()
}

/// The truth value of `value`, by `JsonValue::as_bool`.
#[verifier::external_body]
pub(crate) fn boolean(value: &json::JsonValue) -> (truth: Option<bool>)
    ensures
        truth == json_bool(*value),
{
    value.as_bool()
}

/// Reads `value` as an unsigned integer, by `JsonValue::as_u64`: the digits
/// of a number with a positive sign and no exponent.
#[verifier::external_body]
pub(crate) fn unsigned(value: &json::JsonValue) -> (n: Option<u64>)
    ensures
        n == unsigned_of(json_number(*value)),
{
    value.as_u64()
}

/// Reads `value` as a signed integer, by `JsonValue::as_i64`: the digits of
/// a number without exponent, cast to 64 signed bits and then given the
/// sign. The one number that is left out is the negative one with the
/// digits 2^63: negating it overflows.
#[verifier::external_body]
pub(crate) fn signed(value: &json::JsonValue) -> (n: Option<i64>)
    requires
        !negates_to_overflow(json_number(*value)),
    ensures
        n == signed_of(json_number(*value)),
{
    value.as_i64()
}

/// An object without entries, by `Object::new`.
#[verifier::external_body]
pub(crate) fn new_object() -> (object: json::object::Object)
    ensures
        object_entries(object) == Seq::<(Seq<char>, json::JsonValue)>::empty(),
{
    json::object::Object::new()
}

/// Puts `value` under `key`, by `Object::insert`: in place of the value
/// that the key had, or as a new entry after the others.
#[verifier::external_body]
pub(crate) fn insert(object: &mut json::object::Object, key: &str, value: json::JsonValue)
    ensures
        object_entries(*final(object)) == with_entry(object_entries(*old(object)), key@, value),
{
    object.insert(key, value)
}

/// The object with the entries of `object`: the variant `JsonValue::Object`.
#[verifier::external_body]
pub(crate) fn object_value(object: json::object::Object) -> (value: json::JsonValue)
    ensures
        json_entries(value) == object_entries(object),
{
    json::JsonValue::Object(object)
}

/// The array with the members `items`: the variant `JsonValue::Array`.
#[verifier::external_body]
pub(crate) fn array_value(items: Vec<json::JsonValue>) -> (value: json::JsonValue)
    ensures
        json_members(value) == items@,
{
    json::JsonValue::Array(items)
}

/// The number `n`, by `JsonValue::from`: its sign, its magnitude as digits,
/// and no exponent. The least number is left out: negating it overflows.
#[verifier::external_body]
pub(crate) fn number_value(n: i64) -> (value: json::JsonValue)
    requires
        n > i64::MIN,
    ensures
        json_number(value) == Some(parts_of(n)),
{
    json::JsonValue::from(n)
}

/// The string `text`: the variant `JsonValue::String`.
#[verifier::external_body]
pub(crate) fn text_value(text: String) -> (value: json::JsonValue)
    ensures
        json_text(value) == Some(text@),
{
    json::JsonValue::String(text)
}

/// Writes `value` out, by `json::stringify`.
#[verifier::external_body]
pub(crate) fn dump(value: json::JsonValue) -> (text: String)
    ensures
        text@ == json_dump(value),
{
    json::stringify(value)
}

/// `value` as a `u8`, if it is an unsigned integer that a `u8` holds.
pub open spec fn json_u8(value: json::JsonValue) -> Option<u8> {
    match unsigned_of(json_number(value)) {
        Some(n) => if n <= u8::MAX {
            Some(n as u8)
        } else {
            None
        },
        None => None,
    }
}

/// `value` as a `usize`, if it is an unsigned integer that a `usize` holds.
pub open spec fn json_usize(value: json::JsonValue) -> Option<usize> {
    match unsigned_of(json_number(value)) {
        Some(n) => if n <= usize::MAX {
            Some(n as usize)
        } else {
            None
        },
        None => None,
    }
}

/// `value` as an `i32`, if it is a signed integer that an `i32` holds. The
/// number that cannot be negated is none.
pub open spec fn json_i32(value: json::JsonValue) -> Option<i32> {
    if negates_to_overflow(json_number(value)) {
        None
    } else {
        match signed_of(json_number(value)) {
            Some(n) => if i32::MIN <= n <= i32::MAX {
                Some(n as i32)
            } else {
                None
            },
            None => None,
        }
    }
}

/// Tells whether no point outside a string in `bytes` has more than
/// `FRACTION_LIMIT` digits after it.
pub fn fractions_are_within_limit(bytes: &[u8]) -> (within: bool)
    ensures
        within == fractions_within_limit(bytes@),
{
    let mut in_string = false;
    let mut escaped = false;
    let mut in_fraction = false;
    let mut digits: usize = 0;
    let mut i: usize = 0;
    while i < bytes.len()
        invariant
            i <= bytes.len(),
            digits <= FRACTION_LIMIT,
            scanned(bytes@, i as int) == (Scan {
                in_string,
                escaped,
                in_fraction,
                fraction_digits: digits as nat,
            }),
            forall|end: int|
                0 <= end <= i ==> (#[trigger] scanned(bytes@, end)).fraction_digits
                    <= FRACTION_LIMIT,
        decreases bytes.len() - i,
    {
        let byte = bytes[i];
        if in_string {
            in_string = escaped || byte != 0x22;
            escaped = !escaped && byte == 0x5C;
            in_fraction = false;
            digits = 0;
        } else if byte == 0x22 {
            in_string = true;
            escaped = false;
            in_fraction = false;
            digits = 0;
        } else if byte == 0x2E {
            escaped = false;
            in_fraction = true;
            digits = 0;
        } else if in_fraction && 0x30 <= byte && byte <= 0x39 {
            if digits == FRACTION_LIMIT {
                assert(scanned(bytes@, i + 1).fraction_digits > FRACTION_LIMIT);
                return false;
            }
            digits += 1;
        } else {
            escaped = false;
            in_fraction = false;
            digits = 0;
        }
        i += 1;
    }
    true
}

/// Reads `text` as a JSON document.
pub fn parse(text: &str) -> (document: Option<json::JsonValue>)
    ensures
        document == json_document(text@),
{
    if !fractions_are_within_limit(text.as_bytes()) {
        return None;
    }
    match parse_text(text) {
        Ok(value) => Some(value),
        Err(_) => None,
    }
}

/// `n` as a `u8`, if a `u8` holds it.
pub fn narrow_to_u8(n: Option<u64>) -> (narrow: Option<u8>)
    ensures
        narrow == match n {
            Some(n) => if n <= u8::MAX {
                Some(n as u8)
            } else {
                None
            },
            None => None,
        },
{
    match n {
        Some(n) => if n <= 255 {
            Some(n as u8)
        } else {
            None
        },
        None => None,
    }
}

/// `n` as a `usize`, if a `usize` holds it.
pub fn narrow_to_usize(n: Option<u64>) -> (narrow: Option<usize>)
    ensures
        narrow == match n {
            Some(n) => if n <= usize::MAX {
                Some(n as usize)
            } else {
                None
            },
            None => None,
        },
{
    match n {
        Some(n) => if n <= usize::MAX as u64 {
            Some(n as usize)
        } else {
            None
        },
        None => None,
    }
}

/// `n` as an `i32`, if an `i32` holds it.
pub fn narrow_to_i32(n: Option<i64>) -> (narrow: Option<i32>)
    ensures
        narrow == match n {
            Some(n) => if i32::MIN <= n <= i32::MAX {
                Some(n as i32)
            } else {
                None
            },
            None => None,
        },
{
    match n {
        Some(n) => if -0x8000_0000 <= n && n <= 0x7fff_ffff {
            Some(n as i32)
        } else {
            None
        },
        None => None,
    }
}

/// Reads `value` as a `u8`.
pub fn as_u8(value: &json::JsonValue) -> (n: Option<u8>)
    ensures
        n == json_u8(*value),
{
    narrow_to_u8(unsigned(value))
}

/// Reads `value` as a `usize`.
pub fn as_usize(value: &json::JsonValue) -> (n: Option<usize>)
    ensures
        n == json_usize(*value),
{
    narrow_to_usize(unsigned(value))
}

/// Reads `value` as an `i32`.
pub fn as_i32(value: &json::JsonValue) -> (n: Option<i32>)
    ensures
        n == json_i32(*value),
{
    match number_parts(value) {
        Some((false, 0x8000_0000_0000_0000u64, 0i16)) => None,
        _ => narrow_to_i32(signed(value)),
    }
}

} // verus!
