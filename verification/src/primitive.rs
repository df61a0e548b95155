//! Primitive types and their text forms.
//!
//! Twelve primitive types are written by their lower-case names. A decimal
//! is written `decimal(P,S)` and a fixed-length type `fixed[N]`, where `P`,
//! `S` and `N` are numerals.

use vstd::prelude::*;
use crate::error::{failure, outcome, DecodeError, Entity, ErrorKind, ErrorModel};
use crate::text::{
    chars_of, has_prefix, integer_text, is_digit, is_numeral, lemma_numeral_of, numeral_of,
    numeral_value, parse_numeral, push_integer, push_numeral, starts_with,
};

verus! {

/// The leaf types of a schema.
#[derive(Clone, Copy, Debug, PartialEq, Eq)]
pub enum PrimitiveType {
    /// True or false.
    Boolean,
    /// 32-bit signed integer.
    Int,
    /// 64-bit signed integer.
    Long,
    /// 32-bit IEEE 754 number.
    Float,
    /// 64-bit IEEE 754 number.
    Double,
    /// Fixed-point decimal.
    Decimal {
        /// The number of digits in the number.
        precision: i32,
        /// The number of digits to the right of the decimal point.
        scale: u8,
    },
    /// Calendar date without time zone or time.
    Date,
    /// Time of day without date or time zone.
    Time,
    /// Timestamp without time zone.
    Timestamp,
    /// Timestamp with time zone.
    Timestampz,
    /// Character sequence of arbitrary length.
    String,
    /// Universally unique identifier.
    Uuid,
    /// Byte array of the given length.
    Fixed(u64),
    /// Byte array of arbitrary length.
    Binary,
}

impl View for PrimitiveType {
    type V = PrimitiveType;

    open spec fn view(&self) -> PrimitiveType {
        *self
    }
}

/// `decimal(p,s)`.
pub open spec fn decimal_text(p: Seq<char>, s: Seq<char>) -> Seq<char> {
    "decimal("@ + p + ","@ + s + ")"@
}

/// `fixed[n]`.
pub open spec fn fixed_text(n: Seq<char>) -> Seq<char> {
    "fixed["@ + n + "]"@
}

/// The canonical text of a primitive type.
pub open spec fn primitive_text(p: PrimitiveType) -> Seq<char> {
    match p {
        PrimitiveType::Boolean => "boolean"@,
        PrimitiveType::Int => "int"@,
        PrimitiveType::Long => "long"@,
        PrimitiveType::Float => "float"@,
        PrimitiveType::Double => "double"@,
        PrimitiveType::Decimal { precision, scale } => decimal_text(
            integer_text(precision as int),
            numeral_of(scale as nat),
        ),
        PrimitiveType::Date => "date"@,
        PrimitiveType::Time => "time"@,
        PrimitiveType::Timestamp => "timestamp"@,
        PrimitiveType::Timestampz => "timestampz"@,
        PrimitiveType::String => "string"@,
        PrimitiveType::Uuid => "uuid"@,
        PrimitiveType::Fixed(length) => fixed_text(numeral_of(length as nat)),
        PrimitiveType::Binary => "binary"@,
    }
}

/// The primitive type without parameters that `text` names, letter for letter.
pub open spec fn named_primitive(text: Seq<char>) -> Option<PrimitiveType> {
    if text == "boolean"@ {
        Some(PrimitiveType::Boolean)
    } else if text == "int"@ {
        Some(PrimitiveType::Int)
    } else if text == "long"@ {
        Some(PrimitiveType::Long)
    } else if text == "float"@ {
        Some(PrimitiveType::Float)
    } else if text == "double"@ {
        Some(PrimitiveType::Double)
    } else if text == "date"@ {
        Some(PrimitiveType::Date)
    } else if text == "time"@ {
        Some(PrimitiveType::Time)
    } else if text == "timestamp"@ {
        Some(PrimitiveType::Timestamp)
    } else if text == "timestampz"@ {
        Some(PrimitiveType::Timestampz)
    } else if text == "string"@ {
        Some(PrimitiveType::String)
    } else if text == "uuid"@ {
        Some(PrimitiveType::Uuid)
    } else if text == "binary"@ {
        Some(PrimitiveType::Binary)
    } else {
        None
    }
}

/// `text` is `decimal(p,s)` and both `p` and `s` are numerals.
pub open spec fn is_decimal_text(text: Seq<char>, p: Seq<char>, s: Seq<char>) -> bool {
    is_numeral(p) && is_numeral(s) && text == decimal_text(p, s)
}

/// `text` is `fixed[n]` and `n` is a numeral.
pub open spec fn is_fixed_text(text: Seq<char>, n: Seq<char>) -> bool {
    is_numeral(n) && text == fixed_text(n)
}

/// A numeral whose number is at most `max`.
pub open spec fn numeral_within(s: Seq<char>, max: nat) -> bool {
    is_numeral(s) && numeral_value(s) <= max
}

/// The decimal type that `text` denotes: `text` is `decimal(P,S)` for
/// numerals `P` of at most 2147483647 and `S` of at most 255.
pub open spec fn parse_decimal(text: Seq<char>) -> Option<PrimitiveType> {
    if exists|p: Seq<char>, s: Seq<char>| is_decimal_text(text, p, s) {
        let (p, s) = choose|p: Seq<char>, s: Seq<char>| is_decimal_text(text, p, s);
        if numeral_value(p) <= i32::MAX && numeral_value(s) <= u8::MAX {
            Some(
                PrimitiveType::Decimal {
                    precision: numeral_value(p) as i32,
                    scale: numeral_value(s) as u8,
                },
            )
        } else {
            None
        }
    } else {
        None
    }
}

/// The fixed-length type that `text` denotes: `text` is `fixed[N]` for a
/// numeral `N` of at most 18446744073709551615.
pub open spec fn parse_fixed(text: Seq<char>) -> Option<PrimitiveType> {
    if exists|n: Seq<char>| is_fixed_text(text, n) {
        let n = choose|n: Seq<char>| is_fixed_text(text, n);
        if numeral_value(n) <= u64::MAX {
            Some(PrimitiveType::Fixed(numeral_value(n) as u64))
        } else {
            None
        }
    } else {
        None
    }
}

/// What the pattern `^decimal\((?P<p>\d+),(?P<s>\d+)\)$` captures in `text`:
/// the texts of its groups `p` and `s`, or `None` where it does not match.
pub uninterp spec fn decimal_groups(text: Seq<char>) -> Option<(Seq<char>, Seq<char>)>;

/// What the pattern `^fixed\[(?P<l>\d+)\]$` captures in `text`: the text of
/// its group `l`, or `None` where it does not match.
pub uninterp spec fn fixed_group(text: Seq<char>) -> Option<Seq<char>>;

/// Two captured texts seen as sequences of characters.
pub open spec fn pair_view(groups: Option<(String, String)>) -> Option<(Seq<char>, Seq<char>)> {
    match groups {
        Some((p, s)) => Some((p@, s@)),
        None => None,
    }
}

/// A captured text seen as a sequence of characters.
pub open spec fn single_view(group: Option<String>) -> Option<Seq<char>> {
    match group {
        Some(n) => Some(n@),
        None => None,
    }
}

/// Matches `text` against `^decimal\((?P<p>\d+),(?P<s>\d+)\)$` with
/// `regex::Regex::captures` and hands out the two groups. The pattern is
/// compiled anew on every call.
///
/// Believed of the regex crate, whose `\d` is the Unicode class Nd and whose
/// `^` and `$` stand for the two ends of the text: a match spans the whole
/// text, which then reads `decimal(p,s)` with both groups non-empty; and
/// where the text reads `decimal(p,s)` with two ASCII numerals, the pattern
/// matches and captures exactly these two.
#[verifier::external_body]
fn decimal_captures(text: &str) -> (groups: Option<(String, String)>)
    ensures
        pair_view(groups) == decimal_groups(text@),
        groups matches Some((p, s)) ==> text@ == decimal_text(p@, s@) && p@.len() > 0 && s@.len()
            > 0,
        forall|p: Seq<char>, s: Seq<char>| #[trigger]
            is_decimal_text(text@, p, s) ==> pair_view(groups) == Some((p, s)),
{
    let pattern = regex::Regex::new(r"^decimal\((?P<p>\d+),(?P<s>\d+)\)$").unwrap();
    let caps = pattern.captures(text)?;
    Some((caps.name("p")?.as_str().to_string(), caps.name("s")?.as_str().to_string()))
}

/// Matches `text` against `^fixed\[(?P<l>\d+)\]$` with
/// `regex::Regex::captures` and hands out the group. The pattern is compiled
/// anew on every call.
///
/// Believed of the regex crate as for the decimal pattern: a match spans
/// the whole text, which then reads `fixed[l]` with `l` non-empty; and where
/// the text reads `fixed[l]` with an ASCII numeral, the pattern matches and
/// captures exactly that numeral.
#[verifier::external_body]
fn fixed_captures(text: &str) -> (group: Option<String>)
    ensures
        single_view(group) == fixed_group(text@),
        group matches Some(n) ==> text@ == fixed_text(n@) && n@.len() > 0,
        forall|n: Seq<char>| #[trigger] is_fixed_text(text@, n) ==> single_view(group) == Some(n),
{
    let pattern = regex::Regex::new(r"^fixed\[(?P<l>\d+)\]$").unwrap();
    let caps = pattern.captures(text)?;
    Some(caps.name("l")?.as_str().to_string())
}

/// What a decimal text decodes to, given what the decimal pattern captured
/// in it: no capture is a malformed text; a precision that is no numeral of
/// at most 2147483647 is out of range, and so is, after it, a scale that is
/// no numeral of at most 255.
pub open spec fn decimal_outcome(text: Seq<char>, groups: Option<(Seq<char>, Seq<char>)>) -> Result<
    PrimitiveType,
    ErrorModel,
> {
    match groups {
        None => Err(failure(Entity::Decimal, ErrorKind::MalformedPrimitive, text)),
        Some((p, s)) => if !numeral_within(p, i32::MAX as nat) {
            Err(failure(Entity::Precision, ErrorKind::NumericRange, p))
        } else if !numeral_within(s, u8::MAX as nat) {
            Err(failure(Entity::Scale, ErrorKind::NumericRange, s))
        } else {
            Ok(
                PrimitiveType::Decimal {
                    precision: numeral_value(p) as i32,
                    scale: numeral_value(s) as u8,
                },
            )
        },
    }
}

/// What a fixed-length text decodes to, given what the fixed pattern
/// captured in it: no capture is a malformed text; a length that is no
/// numeral of at most 18446744073709551615 is out of range.
pub open spec fn fixed_outcome(text: Seq<char>, group: Option<Seq<char>>) -> Result<
    PrimitiveType,
    ErrorModel,
> {
    match group {
        None => Err(failure(Entity::Fixed, ErrorKind::MalformedPrimitive, text)),
        Some(n) => if !numeral_within(n, u64::MAX as nat) {
            Err(failure(Entity::Length, ErrorKind::NumericRange, n))
        } else {
            Ok(PrimitiveType::Fixed(numeral_value(n) as u64))
        },
    }
}

/// The error that `decimal_outcome` reports, if it reports one.
pub open spec fn outcome_error(r: Result<PrimitiveType, ErrorModel>, text: Seq<char>) -> ErrorModel {
    match r {
        Err(e) => e,
        Ok(_) => failure(Entity::PrimitiveType, ErrorKind::MalformedPrimitive, text),
    }
}

/// What decoding a text that begins with `decimal` yields: the decimal type
/// it denotes, or else the error of `decimal_outcome`.
pub open spec fn decode_decimal_spec(text: Seq<char>) -> Result<PrimitiveType, ErrorModel> {
    match parse_decimal(text) {
        Some(p) => Ok(p),
        None => Err(outcome_error(decimal_outcome(text, decimal_groups(text)), text)),
    }
}

/// What decoding a text that begins with `fixed` yields: the fixed-length
/// type it denotes, or else the error of `fixed_outcome`.
pub open spec fn decode_fixed_spec(text: Seq<char>) -> Result<PrimitiveType, ErrorModel> {
    match parse_fixed(text) {
        Some(p) => Ok(p),
        None => Err(outcome_error(fixed_outcome(text, fixed_group(text)), text)),
    }
}

/// What decoding the text of a primitive type yields. A text that begins
/// with `decimal` is read by the decimal grammar, one that begins with
/// `fixed` by the fixed grammar, any other as a name.
pub open spec fn decode_primitive_spec(text: Seq<char>) -> Result<PrimitiveType, ErrorModel> {
    if has_prefix(text, "decimal"@) {
        decode_decimal_spec(text)
    } else if has_prefix(text, "fixed"@) {
        decode_fixed_spec(text)
    } else {
        match named_primitive(text) {
            Some(p) => Ok(p),
            None => Err(failure(Entity::PrimitiveType, ErrorKind::MalformedPrimitive, text)),
        }
    }
}

/// The primitive types that their own text decodes to: all but a decimal
/// with a negative precision, whose text carries a minus sign.
pub open spec fn writable(p: PrimitiveType) -> bool {
    p matches PrimitiveType::Decimal { precision, .. } ==> precision >= 0
}

/// Turns what the decimal pattern captured in `text` into a decimal type.
pub fn decimal_from_groups(text: &str, groups: Option<(String, String)>) -> (r: Result<
    PrimitiveType,
    DecodeError,
>)
    ensures
        outcome(r) == decimal_outcome(text@, pair_view(groups)),
{
    match groups {
        None => Err(DecodeError::new(Entity::Decimal, ErrorKind::MalformedPrimitive, text)),
        Some((p, s)) => {
            let precision = parse_numeral(&chars_of(p.as_str()), 0x7fff_ffff);
            match precision {
                None => Err(
                    DecodeError::new(Entity::Precision, ErrorKind::NumericRange, p.as_str()),
                ),
                Some(precision) => {
                    let scale = parse_numeral(&chars_of(s.as_str()), 0xff);
                    match scale {
                        None => Err(
                            DecodeError::new(Entity::Scale, ErrorKind::NumericRange, s.as_str()),
                        ),
                        Some(scale) => Ok(
                            PrimitiveType::Decimal {
                                precision: precision as i32,
                                scale: scale as u8,
                            },
                        ),
                    }
                },
            }
        },
    }
}

/// Turns what the fixed pattern captured in `text` into a fixed-length type.
pub fn fixed_from_group(text: &str, group: Option<String>) -> (r: Result<PrimitiveType, DecodeError>)
    ensures
        outcome(r) == fixed_outcome(text@, single_view(group)),
{
    match group {
        None => Err(DecodeError::new(Entity::Fixed, ErrorKind::MalformedPrimitive, text)),
        Some(n) => {
            let length = parse_numeral(&chars_of(n.as_str()), 0xffff_ffff_ffff_ffff);
            match length {
                None => Err(DecodeError::new(Entity::Length, ErrorKind::NumericRange, n.as_str())),
                Some(length) => Ok(PrimitiveType::Fixed(length)),
            }
        },
    }
}

/// Decodes `decimal(P,S)`.
///
/// Succeeds exactly on the texts that `parse_decimal` accepts. Any other
/// text is an error: the one that `decimal_outcome` gives for what the
/// decimal pattern captures in the text.
pub fn decode_decimal(text: &str) -> (r: Result<PrimitiveType, DecodeError>)
    ensures
        outcome(r) == decode_decimal_spec(text@),
        outcome(r) == decimal_outcome(text@, decimal_groups(text@)),
{
    let groups = decimal_captures(text);
    let ghost captured = pair_view(groups);
    let r = decimal_from_groups(text, groups);
    proof {
        if let Some((p, s)) = captured {
            if r is Ok {
                assert(is_decimal_text(text@, p, s));
            }
        }
    }
    r
}

/// Decodes `fixed[N]`.
///
/// Succeeds exactly on the texts that `parse_fixed` accepts. Any other text
/// is an error: the one that `fixed_outcome` gives for what the fixed
/// pattern captures in the text.
pub fn decode_fixed(text: &str) -> (r: Result<PrimitiveType, DecodeError>)
    ensures
        outcome(r) == decode_fixed_spec(text@),
        outcome(r) == fixed_outcome(text@, fixed_group(text@)),
{
    let group = fixed_captures(text);
    let ghost captured = single_view(group);
    let r = fixed_from_group(text, group);
    proof {
        if let Some(n) = captured {
            if r is Ok {
                assert(is_fixed_text(text@, n));
            }
        }
    }
    r
}

/// Decodes the name of a primitive type without parameters.
pub fn decode_named(text: &str) -> (r: Option<PrimitiveType>)
    ensures
        r == named_primitive(text@),
{
    if *text == *"boolean" {
        Some(PrimitiveType::Boolean)
    } else if *text == *"int" {
        Some(PrimitiveType::Int)
    } else if *text == *"long" {
        Some(PrimitiveType::Long)
    } else if *text == *"float" {
        Some(PrimitiveType::Float)
    } else if *text == *"double" {
        Some(PrimitiveType::Double)
    } else if *text == *"date" {
        Some(PrimitiveType::Date)
    } else if *text == *"time" {
        Some(PrimitiveType::Time)
    } else if *text == *"timestamp" {
        Some(PrimitiveType::Timestamp)
    } else if *text == *"timestampz" {
        Some(PrimitiveType::Timestampz)
    } else if *text == *"string" {
        Some(PrimitiveType::String)
    } else if *text == *"uuid" {
        Some(PrimitiveType::Uuid)
    } else if *text == *"binary" {
        Some(PrimitiveType::Binary)
    } else {
        None
    }
}

/// Decodes the text of a primitive type.
pub fn decode_primitive(text: &str) -> (r: Result<PrimitiveType, DecodeError>)
    ensures
        outcome(r) == decode_primitive_spec(text@),
{
    if starts_with(text, "decimal") {
        decode_decimal(text)
    } else if starts_with(text, "fixed") {
        decode_fixed(text)
    } else {
        match decode_named(text) {
            Some(p) => Ok(p),
            None => Err(
                DecodeError::new(Entity::PrimitiveType, ErrorKind::MalformedPrimitive, text),
            ),
        }
    }
}

/// The canonical text of a primitive type. Every value has one, also a
/// decimal that no text decodes to.
pub fn encode_primitive(p: &PrimitiveType) -> (text: String)
    ensures
        text@ == primitive_text(*p),
{
    match p {
        PrimitiveType::Boolean => String::from_str("boolean"),
        PrimitiveType::Int => String::from_str("int"),
        PrimitiveType::Long => String::from_str("long"),
        PrimitiveType::Float => String::from_str("float"),
        PrimitiveType::Double => String::from_str("double"),
        PrimitiveType::Decimal { precision, scale } => {
            let mut text = String::from_str("decimal(");
            push_integer(&mut text, *precision as i64);
            text.append(",");
            push_numeral(&mut text, *scale as u64);
            text.append(")");
            text
        },
        PrimitiveType::Date => String::from_str("date"),
        PrimitiveType::Time => String::from_str("time"),
        PrimitiveType::Timestamp => String::from_str("timestamp"),
        PrimitiveType::Timestampz => String::from_str("timestampz"),
        PrimitiveType::String => String::from_str("string"),
        PrimitiveType::Uuid => String::from_str("uuid"),
        PrimitiveType::Fixed(length) => {
            let mut text = String::from_str("fixed[");
            push_numeral(&mut text, *length);
            text.append("]");
            text
        },
        PrimitiveType::Binary => String::from_str("binary"),
    }
}

/// A text whose character at `i` differs from that of `p` does not begin with `p`.
proof fn lemma_not_prefix(s: Seq<char>, p: Seq<char>, i: int)
    requires
        0 <= i < p.len(),
        i < s.len() ==> s[i] != p[i],
    ensures
        !has_prefix(s, p),
{
    if p.len() <= s.len() {
        assert(s.subrange(0, p.len() as int)[i] == s[i]);
    }
}

/// `decimal(p,s)` can be read in one way only.
pub proof fn lemma_decimal_text_unique(p: Seq<char>, s: Seq<char>, p2: Seq<char>, s2: Seq<char>)
    requires
        is_numeral(p),
        is_numeral(p2),
        decimal_text(p, s) == decimal_text(p2, s2),
    ensures
        p == p2,
        s == s2,
{
    reveal_strlit("decimal(");
    reveal_strlit(",");
    reveal_strlit(")");
    let a = decimal_text(p, s);
    let b = decimal_text(p2, s2);
    assert(a.len() == p.len() + s.len() + 10);
    assert(b.len() == p2.len() + s2.len() + 10);
    assert forall|i: int| 0 <= i < p.len() implies a[8 + i] == #[trigger] p[i] by {}
    assert forall|i: int| 0 <= i < p2.len() implies b[8 + i] == #[trigger] p2[i] by {}
    assert(a[8 + p.len() as int] == ',');
    assert(b[8 + p2.len() as int] == ',');
    if p.len() < p2.len() {
        assert(is_digit(p2[p.len() as int]));
        assert(b[8 + p.len() as int] == p2[p.len() as int]);
    }
    if p2.len() < p.len() {
        assert(is_digit(p[p2.len() as int]));
        assert(a[8 + p2.len() as int] == p[p2.len() as int]);
    }
    assert(p.len() == p2.len());
    assert(p =~= p2) by {
        assert forall|i: int| 0 <= i < p.len() implies p[i] == p2[i] by {
            assert(a[8 + i] == p[i]);
            assert(b[8 + i] == p2[i]);
        }
    }
    assert(s =~= s2) by {
        assert forall|i: int| 0 <= i < s.len() implies s[i] == s2[i] by {
            assert(a[9 + p.len() + i] == s[i]);
            assert(b[9 + p2.len() + i] == s2[i]);
        }
    }
}

/// `fixed[n]` can be read in one way only.
pub proof fn lemma_fixed_text_unique(n: Seq<char>, n2: Seq<char>)
    requires
        fixed_text(n) == fixed_text(n2),
    ensures
        n == n2,
{
    reveal_strlit("fixed[");
    reveal_strlit("]");
    let a = fixed_text(n);
    let b = fixed_text(n2);
    assert(a.len() == n.len() + 7);
    assert(b.len() == n2.len() + 7);
    assert(n =~= n2) by {
        assert forall|i: int| 0 <= i < n.len() implies n[i] == n2[i] by {
            assert(a[6 + i] == n[i]);
            assert(b[6 + i] == n2[i]);
        }
    }
}

/// What `decimal(p,s)` denotes, for numerals `p` and `s`: the decimal type
/// of their numbers, where both are in range.
pub proof fn lemma_parse_decimal(p: Seq<char>, s: Seq<char>)
    requires
        is_numeral(p),
        is_numeral(s),
    ensures
        parse_decimal(decimal_text(p, s)) == if numeral_value(p) <= i32::MAX && numeral_value(s)
            <= u8::MAX {
            Some(
                PrimitiveType::Decimal {
                    precision: numeral_value(p) as i32,
                    scale: numeral_value(s) as u8,
                },
            )
        } else {
            None
        },
{
    let text = decimal_text(p, s);
    assert(is_decimal_text(text, p, s));
    let (p2, s2) = choose|p2: Seq<char>, s2: Seq<char>| is_decimal_text(text, p2, s2);
    lemma_decimal_text_unique(p, s, p2, s2);
}

/// What `fixed[n]` denotes, for a numeral `n`: the fixed-length type of its
/// number, where that is in range.
pub proof fn lemma_parse_fixed(n: Seq<char>)
    requires
        is_numeral(n),
    ensures
        parse_fixed(fixed_text(n)) == if numeral_value(n) <= u64::MAX {
            Some(PrimitiveType::Fixed(numeral_value(n) as u64))
        } else {
            None
        },
{
    let text = fixed_text(n);
    assert(is_fixed_text(text, n));
    let n2 = choose|n2: Seq<char>| is_fixed_text(text, n2);
    lemma_fixed_text_unique(n, n2);
}

/// The text of a primitive type without parameters is its name, and begins
/// neither with `decimal` nor with `fixed`.
proof fn lemma_names(p: PrimitiveType)
    requires
        !(p is Decimal),
        !(p is Fixed),
    ensures
        named_primitive(primitive_text(p)) == Some(p),
        !has_prefix(primitive_text(p), "decimal"@),
        !has_prefix(primitive_text(p), "fixed"@),
{
    reveal_strlit("decimal");
    reveal_strlit("fixed");
    reveal_strlit("boolean");
    reveal_strlit("int");
    reveal_strlit("long");
    reveal_strlit("float");
    reveal_strlit("double");
    reveal_strlit("date");
    reveal_strlit("time");
    reveal_strlit("timestamp");
    reveal_strlit("timestampz");
    reveal_strlit("string");
    reveal_strlit("uuid");
    reveal_strlit("binary");
    let text = primitive_text(p);
    lemma_not_prefix(text, "decimal"@, 1);
    if p is Float {
        lemma_not_prefix(text, "fixed"@, 1);
    } else {
        lemma_not_prefix(text, "fixed"@, 0);
    }
    assert("boolean"@[0] == 'b');
    assert("int"@[0] == 'i');
    assert("long"@[0] == 'l');
    assert("float"@[0] == 'f');
    assert("double"@[1] == 'o');
    assert("date"@[1] == 'a');
    assert("time"@.len() == 4);
    assert("timestamp"@.len() == 9);
    assert("timestampz"@.len() == 10);
    assert("string"@[0] == 's');
    assert("uuid"@[0] == 'u');
    assert("binary"@[1] == 'i');
}

/// The decimal grammar: for numerals `p` and `s`, the text `decimal(p,s)`
/// decodes to the decimal type of their numbers where the precision is at
/// most 2147483647 and the scale at most 255, and fails otherwise. Leading
/// zeros do not count.
pub proof fn law_decimal_grammar(p: Seq<char>, s: Seq<char>)
    requires
        is_numeral(p),
        is_numeral(s),
    ensures
        numeral_value(p) <= i32::MAX && numeral_value(s) <= u8::MAX ==> decode_primitive_spec(
            decimal_text(p, s),
        ) == Ok::<PrimitiveType, ErrorModel>(
            PrimitiveType::Decimal {
                precision: numeral_value(p) as i32,
                scale: numeral_value(s) as u8,
            },
        ),
        numeral_value(p) > i32::MAX || numeral_value(s) > u8::MAX ==> decode_primitive_spec(
            decimal_text(p, s),
        ) is Err,
{
    reveal_strlit("decimal(");
    reveal_strlit("decimal");
    lemma_parse_decimal(p, s);
    assert(decimal_text(p, s).subrange(0, 7) =~= "decimal"@);
}

/// The fixed grammar: for a numeral `n`, the text `fixed[n]` decodes to the
/// fixed-length type of its number where that is at most
/// 18446744073709551615, and fails otherwise.
pub proof fn law_fixed_grammar(n: Seq<char>)
    requires
        is_numeral(n),
    ensures
        numeral_value(n) <= u64::MAX ==> decode_primitive_spec(fixed_text(n)) == Ok::<
            PrimitiveType,
            ErrorModel,
        >(PrimitiveType::Fixed(numeral_value(n) as u64)),
        numeral_value(n) > u64::MAX ==> decode_primitive_spec(fixed_text(n)) is Err,
{
    reveal_strlit("fixed[");
    reveal_strlit("fixed");
    reveal_strlit("decimal");
    lemma_parse_fixed(n);
    lemma_not_prefix(fixed_text(n), "decimal"@, 0);
    assert(fixed_text(n).subrange(0, 5) =~= "fixed"@);
}

/// A text that begins with `decimal` or `fixed` and does not read
/// `decimal(p,s)` or `fixed[n]` for any numerals denotes no type.
pub proof fn law_grammar_only(text: Seq<char>)
    requires
        has_prefix(text, "decimal"@) || has_prefix(text, "fixed"@),
        forall|p: Seq<char>, s: Seq<char>| !is_decimal_text(text, p, s),
        forall|n: Seq<char>| !is_fixed_text(text, n),
    ensures
        decode_primitive_spec(text) is Err,
{
}

/// Every primitive type that a text decodes to is writable: no text denotes
/// a decimal with a negative precision.
pub proof fn law_decoded_primitive(text: Seq<char>)
    requires
        decode_primitive_spec(text) is Ok,
    ensures
        writable(decode_primitive_spec(text)->Ok_0),
{
}

/// Decoding the canonical text of a primitive type gives the type back,
/// unless it is a decimal with a negative precision.
pub proof fn law_primitive_round_trip(p: PrimitiveType)
    requires
        writable(p),
    ensures
        decode_primitive_spec(primitive_text(p)) == Ok::<PrimitiveType, ErrorModel>(p),
{
    let text = primitive_text(p);
    match p {
        PrimitiveType::Decimal { precision, scale } => {
            reveal_strlit("decimal(");
            reveal_strlit("decimal");
            let digits = numeral_of(precision as nat);
            let places = numeral_of(scale as nat);
            lemma_numeral_of(precision as nat);
            lemma_numeral_of(scale as nat);
            lemma_parse_decimal(digits, places);
            assert(text.subrange(0, 7) =~= "decimal"@);
        },
        PrimitiveType::Fixed(length) => {
            reveal_strlit("fixed[");
            reveal_strlit("fixed");
            reveal_strlit("decimal");
            let digits = numeral_of(length as nat);
            lemma_numeral_of(length as nat);
            lemma_parse_fixed(digits);
            lemma_not_prefix(text, "decimal"@, 0);
            assert(text.subrange(0, 5) =~= "fixed"@);
        },
        _ => {
            lemma_names(p);
        },
    }
}

} // verus!
