//! The token rules shared by the mesh and the animation grammar.
//!
//! Every rule is given twice: as a spec function from the input and a
//! position to a [`Parsed`] value, and as an executable function that is
//! proved to agree with it. Every token skips the whitespace before and
//! after itself.
use crate::error::{ParseError, ParseErrorKind};
use crate::md5::decimal::{
    all_digits, digits_value, is_digit, Decimal, DecimalView, Quaternion, QuaternionView, Vector2,
    Vector2View, Vector3, Vector3View,
};
use vstd::prelude::*;
use vstd::slice::{slice_subrange, slice_to_vec};
use vstd::string::StringSliceAdditionalSpecFns;
use vstd::utf8::{decode_utf8, valid_utf8};

verus! {

/// What a rule yields at a position: the value and the position after it,
/// or the kind of failure and its offset.
pub type Parsed<V> = Result<(V, int), (ParseErrorKind, int)>;

/// An executable result says what the rule says.
pub open spec fn agrees<T: DeepView>(r: Result<(T, usize), ParseError>, p: Parsed<T::V>) -> bool {
    match r {
        Ok((v, end)) => p == Ok::<(T::V, int), (ParseErrorKind, int)>((v.deep_view(), end as int)),
        Err(e) => p == Err::<(T::V, int), (ParseErrorKind, int)>((e.kind, e.offset as int)),
    }
}

pub open spec fn is_space(b: u8) -> bool {
    b == 32 || b == 9 || b == 10 || b == 13
}

/// The first position at or after `pos` that holds no whitespace.
pub open spec fn skip_spaces(s: Seq<u8>, pos: int) -> int
    decreases s.len() - pos,
{
    if 0 <= pos < s.len() && is_space(s[pos]) {
        skip_spaces(s, pos + 1)
    } else {
        pos
    }
}

/// The first position at or after `pos` that holds no digit.
pub open spec fn skip_digits(s: Seq<u8>, pos: int) -> int
    decreases s.len() - pos,
{
    if 0 <= pos < s.len() && is_digit(s[pos]) {
        skip_digits(s, pos + 1)
    } else {
        pos
    }
}

/// The first position at or after `pos` that holds `b`, or the end.
pub open spec fn find_byte(s: Seq<u8>, pos: int, b: u8) -> int
    decreases s.len() - pos,
{
    if 0 <= pos < s.len() && s[pos] != b {
        find_byte(s, pos + 1, b)
    } else {
        pos
    }
}

/// `tag` stands at `pos`.
pub open spec fn has_tag(s: Seq<u8>, pos: int, tag: Seq<u8>) -> bool {
    0 <= pos && pos + tag.len() <= s.len() && s.subrange(pos, pos + tag.len()) == tag
}

/// The kind of failure when a token is missing at `pos`.
pub open spec fn missing(s: Seq<u8>, pos: int, kind: ParseErrorKind) -> (ParseErrorKind, int) {
    if pos >= s.len() {
        (ParseErrorKind::UnexpectedEof, pos)
    } else {
        (kind, pos)
    }
}

/// A keyword or punctuation mark.
pub open spec fn spec_tag(s: Seq<u8>, pos: int, tag: Seq<u8>) -> Parsed<()> {
    let p = skip_spaces(s, pos);
    if has_tag(s, p, tag) {
        Ok(((), skip_spaces(s, p + tag.len())))
    } else {
        Err(missing(s, p, ParseErrorKind::TagMismatch))
    }
}

/// `// ...` through the end of the line, if one stands at `pos`.
pub open spec fn spec_comment(s: Seq<u8>, pos: int) -> int {
    if has_tag(s, pos, seq![47u8, 47u8]) {
        let nl = find_byte(s, pos + 2, 10u8);
        skip_spaces(
            s,
            if nl < s.len() {
                nl + 1
            } else {
                nl
            },
        )
    } else {
        pos
    }
}

/// A quoted string: every byte up to the next quote.
pub open spec fn spec_string(s: Seq<u8>, pos: int) -> Parsed<Seq<char>> {
    let p = skip_spaces(s, pos);
    if !(0 <= p < s.len() && s[p] == 34u8) {
        Err(missing(s, p, ParseErrorKind::TagMismatch))
    } else {
        let close = find_byte(s, p + 1, 34u8);
        if close >= s.len() {
            Err((ParseErrorKind::UnterminatedString, p))
        } else if !valid_utf8(s.subrange(p + 1, close)) {
            Err((ParseErrorKind::InvalidUtf8, p + 1))
        } else {
            Ok((decode_utf8(s.subrange(p + 1, close)), skip_spaces(s, close + 1)))
        }
    }
}

/// An unsigned integer that fits 32 bits.
pub open spec fn spec_u32(s: Seq<u8>, pos: int) -> Parsed<u32> {
    let p = skip_spaces(s, pos);
    let e = skip_digits(s, p);
    if e == p {
        Err(missing(s, p, ParseErrorKind::InvalidInteger))
    } else if digits_value(s.subrange(p, e)) > u32::MAX {
        Err((ParseErrorKind::InvalidInteger, p))
    } else {
        Ok((digits_value(s.subrange(p, e)) as u32, skip_spaces(s, e)))
    }
}

/// Where the digits of a signed number begin: after an optional `-` and
/// the whitespace that follows it.
pub open spec fn has_minus(s: Seq<u8>, p: int) -> bool {
    0 <= p < s.len() && s[p] == 45u8
}

pub open spec fn after_sign(s: Seq<u8>, p: int) -> int {
    if has_minus(s, p) {
        skip_spaces(s, p + 1)
    } else {
        p
    }
}

/// A signed integer whose magnitude is at most `i32::MAX`.
pub open spec fn spec_i32(s: Seq<u8>, pos: int) -> Parsed<i32> {
    let p = skip_spaces(s, pos);
    let q = after_sign(s, p);
    let e = skip_digits(s, q);
    if e == q {
        Err(missing(s, q, ParseErrorKind::InvalidInteger))
    } else if digits_value(s.subrange(q, e)) > i32::MAX {
        Err((ParseErrorKind::InvalidInteger, p))
    } else if has_minus(s, p) {
        Ok(((-(digits_value(s.subrange(q, e)) as int)) as i32, skip_spaces(s, e)))
    } else {
        Ok((digits_value(s.subrange(q, e)) as i32, skip_spaces(s, e)))
    }
}

/// A point followed by at least one digit stands at `e`.
pub open spec fn has_fraction(s: Seq<u8>, e: int) -> bool {
    0 <= e < s.len() && s[e] == 46u8 && skip_digits(s, e + 1) > e + 1
}

/// A decimal number: sign, digits, and an optional point with digits.
pub open spec fn spec_f32(s: Seq<u8>, pos: int) -> Parsed<DecimalView> {
    let p = skip_spaces(s, pos);
    let q = after_sign(s, p);
    let e = skip_digits(s, q);
    if e == q {
        Err(missing(s, q, ParseErrorKind::InvalidFloat))
    } else if has_fraction(s, e) {
        let f = skip_digits(s, e + 1);
        Ok(
            (
                DecimalView {
                    negative: has_minus(s, p),
                    int_digits: s.subrange(q, e),
                    frac_digits: s.subrange(e + 1, f),
                },
                skip_spaces(s, f),
            ),
        )
    } else {
        Ok(
            (
                DecimalView {
                    negative: has_minus(s, p),
                    int_digits: s.subrange(q, e),
                    frac_digits: Seq::empty(),
                },
                skip_spaces(s, e),
            ),
        )
    }
}

/// An optional single byte, such as a parenthesis, with the whitespace
/// around it.
pub open spec fn spec_optional_byte(s: Seq<u8>, pos: int, b: u8) -> int {
    let p = skip_spaces(s, pos);
    if 0 <= p < s.len() && s[p] == b {
        skip_spaces(s, p + 1)
    } else {
        p
    }
}

/// Three decimals, optionally between parentheses.
pub open spec fn spec_tuple3f32(s: Seq<u8>, pos: int) -> Parsed<
    (DecimalView, DecimalView, DecimalView),
> {
    let p0 = spec_optional_byte(s, pos, 40u8);
    match spec_f32(s, p0) {
        Err(e) => Err(e),
        Ok((a, p1)) => match spec_f32(s, p1) {
            Err(e) => Err(e),
            Ok((b, p2)) => match spec_f32(s, p2) {
                Err(e) => Err(e),
                Ok((c, p3)) => Ok(((a, b, c), spec_optional_byte(s, p3, 41u8))),
            },
        },
    }
}

/// Two decimals, optionally between parentheses.
pub open spec fn spec_vector2f32(s: Seq<u8>, pos: int) -> Parsed<Vector2View> {
    let p0 = spec_optional_byte(s, pos, 40u8);
    match spec_f32(s, p0) {
        Err(e) => Err(e),
        Ok((x, p1)) => match spec_f32(s, p1) {
            Err(e) => Err(e),
            Ok((y, p2)) => Ok((Vector2View { x, y }, spec_optional_byte(s, p2, 41u8))),
        },
    }
}

pub open spec fn spec_vector3f32(s: Seq<u8>, pos: int) -> Parsed<Vector3View> {
    match spec_tuple3f32(s, pos) {
        Err(e) => Err(e),
        Ok(((x, y, z), p)) => Ok((Vector3View { x, y, z }, p)),
    }
}

pub open spec fn spec_quaternionf32(s: Seq<u8>, pos: int) -> Parsed<QuaternionView> {
    match spec_tuple3f32(s, pos) {
        Err(e) => Err(e),
        Ok(((x, y, z), p)) => Ok((QuaternionView { x, y, z }, p)),
    }
}

/// Three unsigned integers.
pub open spec fn spec_tuple3u32(s: Seq<u8>, pos: int) -> Parsed<(u32, u32, u32)> {
    match spec_u32(s, pos) {
        Err(e) => Err(e),
        Ok((a, p1)) => match spec_u32(s, p1) {
            Err(e) => Err(e),
            Ok((b, p2)) => match spec_u32(s, p2) {
                Err(e) => Err(e),
                Ok((c, p3)) => Ok(((a, b, c), p3)),
            },
        },
    }
}

// ---------------------------------------------------------------------
// Facts about the scanning functions.
// ---------------------------------------------------------------------
pub proof fn lemma_skip_spaces_bounds(s: Seq<u8>, pos: int)
    ensures
        pos <= skip_spaces(s, pos),
        pos <= s.len() ==> skip_spaces(s, pos) <= s.len(),
    decreases s.len() - pos,
{
    if 0 <= pos < s.len() && is_space(s[pos]) {
        lemma_skip_spaces_bounds(s, pos + 1);
    }
}

pub proof fn lemma_skip_digits_bounds(s: Seq<u8>, pos: int)
    ensures
        pos <= skip_digits(s, pos),
        pos <= s.len() ==> skip_digits(s, pos) <= s.len(),
        0 <= pos <= s.len() ==> all_digits(s.subrange(pos, skip_digits(s, pos))),
    decreases s.len() - pos,
{
    if 0 <= pos < s.len() && is_digit(s[pos]) {
        lemma_skip_digits_bounds(s, pos + 1);
        let e = skip_digits(s, pos);
        assert forall|i: int| 0 <= i < e - pos implies is_digit(
            #[trigger] s.subrange(pos, e)[i],
        ) by {
            if i > 0 {
                assert(s.subrange(pos, e)[i] == s.subrange(pos + 1, e)[i - 1]);
            }
        }
    }
}

/// A decimal that is read has a digit before the point and holds nothing
/// but digits.
pub proof fn lemma_decimal_well_formed(s: Seq<u8>, pos: int)
    requires
        0 <= pos,
    ensures
        spec_f32(s, pos) matches Ok((d, _)) ==> d.well_formed(),
{
    lemma_skip_spaces_bounds(s, pos);
    let p = skip_spaces(s, pos);
    let q = after_sign(s, p);
    if has_minus(s, p) {
        lemma_skip_spaces_bounds(s, p + 1);
    }
    let e = skip_digits(s, q);
    lemma_skip_digits_bounds(s, q);
    if e != q && has_fraction(s, e) {
        lemma_skip_digits_bounds(s, e + 1);
    }
}

fn error<T>(kind: ParseErrorKind, offset: usize) -> (r: Result<T, ParseError>)
    ensures
        r == Err::<T, ParseError>(ParseError { kind, offset }),
{
    Err(ParseError { kind, offset })
}

fn missing_at<T>(input: &[u8], pos: usize, kind: ParseErrorKind) -> (r: Result<T, ParseError>)
    ensures
        r matches Err(e) && (e.kind, e.offset as int) == missing(input@, pos as int, kind),
{
    if pos >= input.len() {
        Err(ParseError { kind: ParseErrorKind::UnexpectedEof, offset: pos })
    } else {
        Err(ParseError { kind, offset: pos })
    }
}

// ---------------------------------------------------------------------
// The executable rules.
// ---------------------------------------------------------------------
/// Skips spaces, tabs, carriage returns and newlines.
pub fn skip_whitespace(input: &[u8], pos: usize) -> (end: usize)
    ensures
        end as int == skip_spaces(input@, pos as int),
        pos <= end,
        pos <= input@.len() ==> end <= input@.len(),
{
    let mut i: usize = pos;
    while i < input.len() && (input[i] == 32 || input[i] == 9 || input[i] == 10 || input[i] == 13)
        invariant
            pos <= i,
            pos <= input@.len() ==> i <= input@.len(),
            skip_spaces(input@, pos as int) == skip_spaces(input@, i as int),
        decreases input@.len() - i,
    {
        i += 1;
    }
    i
}

/// Finds the first `b` at or after `pos`.
fn scan_to_byte(input: &[u8], pos: usize, b: u8) -> (end: usize)
    ensures
        end as int == find_byte(input@, pos as int, b),
        pos <= end,
        pos <= input@.len() ==> end <= input@.len(),
{
    let mut i: usize = pos;
    while i < input.len() && input[i] != b
        invariant
            pos <= i,
            pos <= input@.len() ==> i <= input@.len(),
            find_byte(input@, pos as int, b) == find_byte(input@, i as int, b),
        decreases input@.len() - i,
    {
        i += 1;
    }
    i
}

/// Skips digits.
fn scan_digits(input: &[u8], pos: usize) -> (end: usize)
    ensures
        end as int == skip_digits(input@, pos as int),
        pos <= end,
        pos <= input@.len() ==> end <= input@.len(),
{
    let mut i: usize = pos;
    while i < input.len() && 48 <= input[i] && input[i] <= 57
        invariant
            pos <= i,
            pos <= input@.len() ==> i <= input@.len(),
            skip_digits(input@, pos as int) == skip_digits(input@, i as int),
        decreases input@.len() - i,
    {
        i += 1;
    }
    i
}

/// Whether `tag` stands at `pos`.
pub fn tag_at(input: &[u8], pos: usize, word: &str) -> (found: bool)
    ensures
        found == has_tag(input@, pos as int, word.spec_bytes()),
{
    let t = word.as_bytes();
    if pos > input.len() || t.len() > input.len() - pos {
        return false;
    }
    let n = input.len();
    let mut i: usize = 0;
    while i < t.len()
        invariant
            i <= t@.len(),
            t@ == word.spec_bytes(),
            n == input@.len(),
            pos + t@.len() <= input@.len(),
            forall|j: int| 0 <= j < i ==> input@[pos + j] == t@[j],
        decreases t@.len() - i,
    {
        if input[pos + i] != t[i] {
            proof {
                assert(input@.subrange(pos as int, pos + t@.len())[i as int] != t@[i as int]);
            }
            return false;
        }
        i += 1;
    }
    proof {
        assert(input@.subrange(pos as int, pos + t@.len()) =~= t@);
    }
    true
}

/// Reads the keyword or punctuation mark `word`.
pub fn tag(input: &[u8], pos: usize, word: &str) -> (r: Result<((), usize), ParseError>)
    ensures
        agrees(r, spec_tag(input@, pos as int, word.spec_bytes())),
        r matches Ok((_, end)) ==> pos <= end <= input@.len(),
{
    let p = skip_whitespace(input, pos);
    if tag_at(input, p, word) {
        let n = input.len();
        let end = skip_whitespace(input, p + word.as_bytes().len());
        Ok(((), end))
    } else {
        missing_at(input, p, ParseErrorKind::TagMismatch)
    }
}

/// Skips a `//` comment, if one stands at `pos`, through the end of its
/// line, and the whitespace after it.
pub fn comments(input: &[u8], pos: usize) -> (end: usize)
    ensures
        end as int == spec_comment(input@, pos as int),
        pos <= end,
        pos <= input@.len() ==> end <= input@.len(),
{
    if pos < input.len() && input.len() - pos >= 2 && input[pos] == 47 && input[pos + 1] == 47 {
        proof {
            assert(input@.subrange(pos as int, pos + 2) =~= seq![47u8, 47u8]);
        }
        let nl = scan_to_byte(input, pos + 2, 10);
        if nl < input.len() {
            skip_whitespace(input, nl + 1)
        } else {
            skip_whitespace(input, nl)
        }
    } else {
        proof {
            if has_tag(input@, pos as int, seq![47u8, 47u8]) {
                let t = input@.subrange(pos as int, pos + 2);
                assert(t[0] == 47u8 && t[1] == 47u8);
            }
        }
        pos
    }
}

/// Trusted, not proved: `String::from_utf8` of the standard library. It
/// yields the text that `bytes` encode where they are UTF-8, and fails
/// exactly where they are not.
#[verifier::external_body]
fn text_of(bytes: Vec<u8>) -> (r: Option<String>)
    ensures
        r is Some <==> valid_utf8(bytes@),
        r matches Some(t) ==> t@ == decode_utf8(bytes@),
{
    String::from_utf8(bytes).ok()
}

/// Reads a quoted string.
pub fn escaped_string(input: &[u8], pos: usize) -> (r: Result<(String, usize), ParseError>)
    ensures
        agrees(r, spec_string(input@, pos as int)),
        r matches Ok((_, end)) ==> pos <= end <= input@.len(),
{
    let p = skip_whitespace(input, pos);
    if !(p < input.len() && input[p] == 34) {
        return missing_at(input, p, ParseErrorKind::TagMismatch);
    }
    let close = scan_to_byte(input, p + 1, 34);
    if close >= input.len() {
        return error(ParseErrorKind::UnterminatedString, p);
    }
    let bytes = slice_to_vec(slice_subrange(input, p + 1, close));
    match text_of(bytes) {
        None => error(ParseErrorKind::InvalidUtf8, p + 1),
        Some(text) => {
            let end = skip_whitespace(input, close + 1);
            Ok((text, end))
        },
    }
}

/// The value of the digits in `input[start..end]`, where it is at most
/// `limit`.
fn digits_to_number(input: &[u8], start: usize, end: usize, limit: u64) -> (r: Option<u64>)
    requires
        start <= end <= input@.len(),
        all_digits(input@.subrange(start as int, end as int)),
        limit <= u32::MAX,
    ensures
        match r {
            Some(v) => v == digits_value(input@.subrange(start as int, end as int)) && v <= limit,
            None => digits_value(input@.subrange(start as int, end as int)) > limit,
        },
{
    let mut i: usize = start;
    let mut acc: u64 = 0;
    let mut over = false;
    proof {
        assert(input@.subrange(start as int, start as int).len() == 0);
    }
    while i < end
        invariant
            start <= i <= end <= input@.len(),
            all_digits(input@.subrange(start as int, end as int)),
            limit <= u32::MAX,
            !over ==> acc == digits_value(input@.subrange(start as int, i as int)) && acc <= limit,
            over ==> digits_value(input@.subrange(start as int, i as int)) > limit,
        decreases end - i,
    {
        let b = input[i];
        proof {
            let whole = input@.subrange(start as int, end as int);
            assert(whole[i - start] == b);
            let next = input@.subrange(start as int, i + 1);
            assert(next.drop_last() =~= input@.subrange(start as int, i as int));
            assert(next.last() == b);
        }
        if !over {
            let v: u64 = acc * 10 + (b - 48) as u64;
            if v > limit {
                over = true;
            } else {
                acc = v;
            }
        }
        i += 1;
    }
    if over {
        None
    } else {
        Some(acc)
    }
}

/// Reads an unsigned integer.
pub fn parse_u32(input: &[u8], pos: usize) -> (r: Result<(u32, usize), ParseError>)
    ensures
        agrees(r, spec_u32(input@, pos as int)),
        r matches Ok((_, end)) ==> pos <= end <= input@.len(),
{
    let p = skip_whitespace(input, pos);
    let e = scan_digits(input, p);
    if e == p {
        return missing_at(input, p, ParseErrorKind::InvalidInteger);
    }
    proof {
        lemma_skip_digits_bounds(input@, p as int);
    }
    match digits_to_number(input, p, e, 0xffff_ffff) {
        None => error(ParseErrorKind::InvalidInteger, p),
        Some(v) => {
            let end = skip_whitespace(input, e);
            Ok((v as u32, end))
        },
    }
}

/// Reads an optional `-` and the whitespace after it.
fn parse_sign(input: &[u8], p: usize) -> (r: (bool, usize))
    ensures
        r.0 == has_minus(input@, p as int),
        r.1 as int == after_sign(input@, p as int),
        p <= r.1,
        p <= input@.len() ==> r.1 <= input@.len(),
{
    if p < input.len() && input[p] == 45 {
        (true, skip_whitespace(input, p + 1))
    } else {
        (false, p)
    }
}

/// Reads a signed integer.
pub fn parse_i32(input: &[u8], pos: usize) -> (r: Result<(i32, usize), ParseError>)
    ensures
        agrees(r, spec_i32(input@, pos as int)),
        r matches Ok((_, end)) ==> pos <= end <= input@.len(),
{
    let p = skip_whitespace(input, pos);
    let (negative, q) = parse_sign(input, p);
    let e = scan_digits(input, q);
    if e == q {
        return missing_at(input, q, ParseErrorKind::InvalidInteger);
    }
    proof {
        lemma_skip_digits_bounds(input@, q as int);
    }
    match digits_to_number(input, q, e, 0x7fff_ffff) {
        None => error(ParseErrorKind::InvalidInteger, p),
        Some(v) => {
            let end = skip_whitespace(input, e);
            let magnitude: i32 = v as i32;
            if negative {
                Ok((-magnitude, end))
            } else {
                Ok((magnitude, end))
            }
        },
    }
}

/// Reads a decimal number and keeps its digits.
pub fn parse_f32(input: &[u8], pos: usize) -> (r: Result<(Decimal, usize), ParseError>)
    ensures
        agrees(r, spec_f32(input@, pos as int)),
        r matches Ok((d, _)) ==> d.deep_view().well_formed(),
        r matches Ok((_, end)) ==> pos <= end <= input@.len(),
{
    let p = skip_whitespace(input, pos);
    let (negative, q) = parse_sign(input, p);
    let e = scan_digits(input, q);
    if e == q {
        return missing_at(input, q, ParseErrorKind::InvalidFloat);
    }
    proof {
        lemma_skip_digits_bounds(input@, q as int);
    }
    let int_digits = slice_to_vec(slice_subrange(input, q, e));
    if e < input.len() && input[e] == 46 {
        let f = scan_digits(input, e + 1);
        if f > e + 1 {
            proof {
                lemma_skip_digits_bounds(input@, e + 1);
            }
            let frac_digits = slice_to_vec(slice_subrange(input, e + 1, f));
            let end = skip_whitespace(input, f);
            return Ok((Decimal { negative, int_digits, frac_digits }, end));
        }
    }
    let end = skip_whitespace(input, e);
    Ok((Decimal { negative, int_digits, frac_digits: Vec::new() }, end))
}

/// Reads `b` if it stands next, with the whitespace around it.
fn optional_byte(input: &[u8], pos: usize, b: u8) -> (end: usize)
    ensures
        end as int == spec_optional_byte(input@, pos as int, b),
        pos <= end,
        pos <= input@.len() ==> end <= input@.len(),
{
    let p = skip_whitespace(input, pos);
    if p < input.len() && input[p] == b {
        skip_whitespace(input, p + 1)
    } else {
        p
    }
}

/// Reads three decimals, optionally between parentheses.
pub fn parse_tuple3f32(input: &[u8], pos: usize) -> (r: Result<
    ((Decimal, Decimal, Decimal), usize),
    ParseError,
>)
    ensures
        agrees(r, spec_tuple3f32(input@, pos as int)),
        r matches Ok(((a, b, c), _)) ==> a.deep_view().well_formed() && b.deep_view().well_formed()
            && c.deep_view().well_formed(),
        r matches Ok((_, end)) ==> pos <= end <= input@.len(),
{
    let p0 = optional_byte(input, pos, 40);
    let (a, p1) = parse_f32(input, p0)?;
    let (b, p2) = parse_f32(input, p1)?;
    let (c, p3) = parse_f32(input, p2)?;
    let end = optional_byte(input, p3, 41);
    Ok(((a, b, c), end))
}

/// Reads two decimals, optionally between parentheses.
pub fn parse_vector2f32(input: &[u8], pos: usize) -> (r: Result<(Vector2, usize), ParseError>)
    ensures
        agrees(r, spec_vector2f32(input@, pos as int)),
        r matches Ok((_, end)) ==> pos <= end <= input@.len(),
{
    let p0 = optional_byte(input, pos, 40);
    let (x, p1) = parse_f32(input, p0)?;
    let (y, p2) = parse_f32(input, p1)?;
    let end = optional_byte(input, p2, 41);
    Ok((Vector2 { x, y }, end))
}

/// Reads a vector of three decimals.
pub fn parse_vector3f32(input: &[u8], pos: usize) -> (r: Result<(Vector3, usize), ParseError>)
    ensures
        agrees(r, spec_vector3f32(input@, pos as int)),
        r matches Ok((_, end)) ==> pos <= end <= input@.len(),
{
    let ((x, y, z), end) = parse_tuple3f32(input, pos)?;
    Ok((Vector3 { x, y, z }, end))
}

/// Reads the three stored components of a unit quaternion.
pub fn parse_quaternionf32(input: &[u8], pos: usize) -> (r: Result<(Quaternion, usize), ParseError>)
    ensures
        agrees(r, spec_quaternionf32(input@, pos as int)),
        r matches Ok((_, end)) ==> pos <= end <= input@.len(),
{
    let ((x, y, z), end) = parse_tuple3f32(input, pos)?;
    Ok((Quaternion { x, y, z }, end))
}

/// Reads three unsigned integers.
pub fn parse_tuple3u32(input: &[u8], pos: usize) -> (r: Result<((u32, u32, u32), usize), ParseError>)
    ensures
        agrees(r, spec_tuple3u32(input@, pos as int)),
        r matches Ok((_, end)) ==> pos <= end <= input@.len(),
{
    let (a, p1) = parse_u32(input, pos)?;
    let (b, p2) = parse_u32(input, p1)?;
    let (c, p3) = parse_u32(input, p2)?;
    Ok(((a, b, c), p3))
}

// ---------------------------------------------------------------------
// Lists of records.
// ---------------------------------------------------------------------
/// A record rule that can stand in a list: one look at the input tells
/// whether another record begins, and a record that has begun must be
/// read in full.
pub trait Rule {
    type Out: DeepView;

    /// Another record begins at `pos`.
    spec fn starts(s: Seq<u8>, pos: int) -> bool;

    /// What the record rule yields at `pos`.
    spec fn rule(s: Seq<u8>, pos: int) -> Parsed<<Self::Out as DeepView>::V>;

    fn begins(input: &[u8], pos: usize) -> (b: bool)
        ensures
            b == Self::starts(input@, pos as int),
    ;

    fn parse(input: &[u8], pos: usize) -> (r: Result<(Self::Out, usize), ParseError>)
        ensures
            agrees(r, Self::rule(input@, pos as int)),
            r matches Ok((_, end)) ==> pos <= end <= input@.len(),
    ;
}

/// The next byte that is not whitespace is `b`.
pub open spec fn next_is(s: Seq<u8>, pos: int, b: u8) -> bool {
    let p = skip_spaces(s, pos);
    0 <= p < s.len() && s[p] == b
}

/// The input goes on after the whitespace at `pos`, with a byte other
/// than `b`.
pub open spec fn next_is_not(s: Seq<u8>, pos: int, b: u8) -> bool {
    let p = skip_spaces(s, pos);
    0 <= p < s.len() && s[p] != b
}

/// `tag` comes next after the whitespace at `pos`.
pub open spec fn next_has_tag(s: Seq<u8>, pos: int, tag: Seq<u8>) -> bool {
    has_tag(s, skip_spaces(s, pos), tag)
}

pub fn peek_is(input: &[u8], pos: usize, b: u8) -> (r: bool)
    ensures
        r == next_is(input@, pos as int, b),
{
    let p = skip_whitespace(input, pos);
    p < input.len() && input[p] == b
}

pub fn peek_is_not(input: &[u8], pos: usize, b: u8) -> (r: bool)
    ensures
        r == next_is_not(input@, pos as int, b),
{
    let p = skip_whitespace(input, pos);
    p < input.len() && input[p] != b
}

pub fn peek_tag(input: &[u8], pos: usize, word: &str) -> (r: bool)
    ensures
        r == next_has_tag(input@, pos as int, word.spec_bytes()),
{
    let p = skip_whitespace(input, pos);
    tag_at(input, p, word)
}

/// `items` in front of what a list rule yields.
pub open spec fn prepend<V>(items: Seq<V>, rest: Parsed<Seq<V>>) -> Parsed<Seq<V>> {
    match rest {
        Err(e) => Err(e),
        Ok((tail, end)) => Ok((items + tail, end)),
    }
}

/// Records for as long as one begins. The first record that fails, fails
/// the list.
pub open spec fn spec_many<R: Rule>(s: Seq<u8>, pos: int) -> Parsed<Seq<<R::Out as DeepView>::V>>
    decreases s.len() - pos,
{
    if !R::starts(s, pos) {
        Ok((Seq::empty(), pos))
    } else {
        match R::rule(s, pos) {
            Err(e) => Err(e),
            Ok((v, next)) => if pos < next <= s.len() {
                prepend(seq![v], spec_many::<R>(s, next))
            } else {
                Ok((seq![v], next))
            },
        }
    }
}

/// One record, then records for as long as one begins.
pub open spec fn spec_many1<R: Rule>(s: Seq<u8>, pos: int) -> Parsed<Seq<<R::Out as DeepView>::V>> {
    match R::rule(s, pos) {
        Err(e) => Err(e),
        Ok((v, next)) => prepend(seq![v], spec_many::<R>(s, next)),
    }
}

/// The record rule yields `v` at `p`.
pub open spec fn yields<R: Rule>(s: Seq<u8>, p: int, v: <R::Out as DeepView>::V) -> bool {
    R::rule(s, p) matches Ok((w, _)) && w == v
}

/// Every record of a list is one that the record rule yields somewhere
/// in the input.
pub proof fn lemma_many_elements<R: Rule>(s: Seq<u8>, pos: int, i: int)
    requires
        spec_many::<R>(s, pos) matches Ok((items, _)) && 0 <= i < items.len(),
    ensures
        exists|p: int| #[trigger] yields::<R>(s, p, spec_many::<R>(s, pos)->Ok_0.0[i]),
    decreases s.len() - pos,
{
    let items = spec_many::<R>(s, pos)->Ok_0.0;
    match R::rule(s, pos) {
        Ok((v, next)) => {
            if pos < next <= s.len() {
                let tail = spec_many::<R>(s, next)->Ok_0.0;
                assert(items == seq![v] + tail);
                if i == 0 {
                    assert(yields::<R>(s, pos, items[i]));
                } else {
                    lemma_many_elements::<R>(s, next, i - 1);
                    let w = tail[i - 1];
                    let p = choose|p: int| #[trigger] yields::<R>(s, p, w);
                    assert(yields::<R>(s, p, items[i]));
                }
            } else {
                assert(yields::<R>(s, pos, items[i]));
            }
        },
        Err(_) => {},
    }
}

/// Reads records for as long as one begins.
pub fn many<R: Rule>(input: &[u8], pos: usize) -> (r: Result<(Vec<R::Out>, usize), ParseError>)
    ensures
        agrees(r, spec_many::<R>(input@, pos as int)),
        r matches Ok((_, end)) ==> pos <= end && (pos <= input@.len() ==> end <= input@.len()),
{
    let mut out: Vec<R::Out> = Vec::new();
    many_more::<R>(input, pos, out)
}

/// Reads one record, then records for as long as one begins.
pub fn many1<R: Rule>(input: &[u8], pos: usize) -> (r: Result<(Vec<R::Out>, usize), ParseError>)
    ensures
        agrees(r, spec_many1::<R>(input@, pos as int)),
        r matches Ok((_, end)) ==> pos <= end <= input@.len(),
{
    let (first, next) = R::parse(input, pos)?;
    let ghost v = first.deep_view();
    let mut out: Vec<R::Out> = Vec::new();
    out.push(first);
    proof {
        assert(out.deep_view() =~= seq![v]);
    }
    many_more::<R>(input, next, out)
}

/// Appends to `head` the records that begin at `pos`.
fn many_more<R: Rule>(input: &[u8], pos: usize, head: Vec<R::Out>) -> (r: Result<
    (Vec<R::Out>, usize),
    ParseError,
>)
    ensures
        agrees(r, prepend(head.deep_view(), spec_many::<R>(input@, pos as int))),
        r matches Ok((_, end)) ==> pos <= end && (pos <= input@.len() ==> end <= input@.len()),
{
    let mut out = head;
    let mut cur: usize = pos;
    let ghost whole = prepend(head.deep_view(), spec_many::<R>(input@, pos as int));
    proof {
        assert(out.deep_view() =~= head.deep_view());
    }
    while cur < input.len()
        invariant
            pos <= cur,
            cur == pos || cur <= input@.len(),
            whole == prepend(head.deep_view(), spec_many::<R>(input@, pos as int)),
            whole == prepend(out.deep_view(), spec_many::<R>(input@, cur as int)),
        decreases input@.len() - cur,
    {
        if !R::begins(input, cur) {
            proof {
                assert(out.deep_view() + Seq::empty() =~= out.deep_view());
            }
            return Ok((out, cur));
        }
        let (v, next) = R::parse(input, cur)?;
        let ghost prev = out.deep_view();
        let ghost item = v.deep_view();
        out.push(v);
        proof {
            assert(out.deep_view() =~= prev.push(item));
            assert(prev + seq![item] =~= prev.push(item));
        }
        if !(cur < next && next <= input.len()) {
            return Ok((out, next));
        }
        proof {
            match spec_many::<R>(input@, next as int) {
                Ok((tail, _)) => {
                    assert(prev + (seq![item] + tail) =~= prev.push(item) + tail);
                },
                Err(_) => {},
            }
        }
        cur = next;
    }
    if !R::begins(input, cur) {
        proof {
            assert(out.deep_view() + Seq::empty() =~= out.deep_view());
        }
        return Ok((out, cur));
    }
    let (v, next) = R::parse(input, cur)?;
    let ghost prev = out.deep_view();
    let ghost item = v.deep_view();
    out.push(v);
    proof {
        assert(out.deep_view() =~= prev.push(item));
        assert(prev + seq![item] =~= prev.push(item));
    }
    Ok((out, next))
}

} // verus!
