//! Encoder and decoder for Language Server Protocol messages.
//!
//! A message on the wire is a block of `Name: value` header lines ended by an
//! empty line, followed by a body of exactly `Content-Length` bytes of UTF-8
//! encoded JSON.

use bytes::BytesMut;
use vstd::prelude::*;
use vstd::string::StringSliceAdditionalSpecFns;
use vstd::utf8::{
    decode_utf8, encode_utf8, encode_utf8_decode_utf8, encode_utf8_valid_utf8, is_ascii_chars,
    is_ascii_chars_encode_utf8, valid_utf8,
};

verus! {

#[verifier::external_type_specification]
#[verifier::external_body]
pub struct ExBytesMut(bytes::BytesMut);

/// The bytes held by a `BytesMut` buffer, in order.
pub uninterp spec fn buffer_bytes(b: BytesMut) -> Seq<u8>;

/// `BytesMut::len`: the number of bytes held.
#[verifier::external_body]
fn buffer_len(b: &BytesMut) -> (n: usize)
    ensures
        n == buffer_bytes(*b).len(),
{
    b.len()
}

/// `Buf::advance` on a `BytesMut`: drops the first `n` bytes. The crate panics
/// when `n` exceeds the length, which the precondition rules out.
#[verifier::external_body]
fn buffer_advance(b: &mut BytesMut, n: usize)
    requires
        n <= buffer_bytes(*old(b)).len(),
    ensures
        buffer_bytes(*final(b)) == buffer_bytes(*old(b)).skip(n as int),
{
    bytes::Buf::advance(b, n)
}

/// Copies the first `n` bytes of the buffer (`b[..n].to_vec()`); indexing
/// past the end panics, which the precondition rules out.
#[verifier::external_body]
fn buffer_prefix(b: &BytesMut, n: usize) -> (v: Vec<u8>)
    requires
        n <= buffer_bytes(*b).len(),
    ensures
        v@ == buffer_bytes(*b).take(n as int),
{
    b[..n].to_vec()
}

/// `BytesMut::extend_from_slice`: appends `data` at the end. Growing the
/// allocation past `isize::MAX` bytes panics, which the precondition rules out.
#[verifier::external_body]
fn buffer_extend(b: &mut BytesMut, data: &[u8])
    requires
        buffer_bytes(*old(b)).len() + data@.len() <= isize::MAX,
    ensures
        buffer_bytes(*final(b)) == buffer_bytes(*old(b)) + data@,
{
    b.extend_from_slice(data)
}

// ---------------------------------------------------------------------------
// Decimal numbers

/// The number of decimal digits of `n`, where zero has none.
pub open spec fn digit_count(n: nat) -> nat
    decreases n,
{
    if n == 0 {
        0
    } else {
        1 + digit_count(n / 10)
    }
}

/// Counts the decimal digits of `n` (zero counts as having no digits).
pub fn number_of_digits(n: usize) -> (count: usize)
    ensures
        count == digit_count(n as nat),
{
    let mut rest: usize = n;
    let mut num_digits: usize = 0;
    proof {
        lemma_digit_count_le(n as nat);
    }
    while rest > 0
        invariant
            num_digits + digit_count(rest as nat) == digit_count(n as nat),
            digit_count(n as nat) <= n,
        decreases rest,
    {
        rest = rest / 10;
        num_digits = num_digits + 1;
    }
    num_digits
}

proof fn lemma_digit_count_le(n: nat)
    ensures
        digit_count(n) <= n,
    decreases n,
{
    if n != 0 {
        lemma_digit_count_le(n / 10);
    }
}


/// The ASCII decimal representation of `n`, most significant digit first;
/// zero is written `0`.
pub open spec fn decimal_bytes(n: nat) -> Seq<u8>
    decreases n,
{
    if n < 10 {
        seq![(48 + n) as u8]
    } else {
        decimal_bytes(n / 10).push((48 + n % 10) as u8)
    }
}

/// Reads ASCII bytes as the characters with the same code.
pub open spec fn ascii_chars(b: Seq<u8>) -> Seq<char> {
    Seq::new(b.len(), |i: int| b[i] as char)
}

pub open spec fn is_digit_char(c: char) -> bool {
    48 <= (c as u32) && (c as u32) <= 57
}

pub open spec fn all_digit_chars(cs: Seq<char>) -> bool {
    forall|i: int| 0 <= i < cs.len() ==> is_digit_char(#[trigger] cs[i])
}

/// The value of a string of decimal digits.
pub open spec fn digits_value(cs: Seq<char>) -> nat
    decreases cs.len(),
{
    if cs.len() == 0 {
        0
    } else {
        10 * digits_value(cs.drop_last()) + ((cs.last() as u32) - 48) as nat
    }
}

/// The value of an unsigned decimal literal: an optional `+` followed by one
/// or more decimal digits, and nothing else.
pub open spec fn unsigned_literal(cs: Seq<char>) -> Option<nat> {
    let ds = if cs.len() > 0 && cs[0] == '+' {
        cs.drop_first()
    } else {
        cs
    };
    if ds.len() > 0 && all_digit_chars(ds) {
        Some(digits_value(ds))
    } else {
        None
    }
}

/// The `usize` that `str::parse::<usize>` reads from `cs`, if any.
pub open spec fn usize_literal(cs: Seq<char>) -> Option<usize> {
    match unsigned_literal(cs) {
        Some(v) => if v <= usize::MAX {
            Some(v as usize)
        } else {
            None
        },
        None => None,
    }
}

#[verifier::external_type_specification]
#[verifier::external_body]
pub struct ExParseIntError(std::num::ParseIntError);

/// `str::parse::<usize>`: accepts exactly an optional `+` followed by one or
/// more ASCII decimal digits whose value fits in a `usize`, as the standard
/// library documents for `from_str_radix` with radix 10 on an unsigned type.
#[verifier::external_body]
fn parse_usize(s: &str) -> (r: Result<usize, std::num::ParseIntError>)
    ensures
        r is Ok <==> usize_literal(s@) is Some,
        r matches Ok(n) ==> usize_literal(s@) == Some(n),
{
    s.parse::<usize>()
}

/// Writes `n` in decimal.
fn decimal_digits(n: usize) -> (v: Vec<u8>)
    ensures
        v@ == decimal_bytes(n as nat),
    decreases n,
{
    if n < 10 {
        let mut v: Vec<u8> = Vec::new();
        v.push(48u8 + n as u8);
        v
    } else {
        let mut v = decimal_digits(n / 10);
        v.push(48u8 + (n % 10) as u8);
        v
    }
}

pub proof fn lemma_decimal_bytes_digits(n: nat)
    ensures
        decimal_bytes(n).len() > 0,
        all_digit_chars(ascii_chars(decimal_bytes(n))),
        forall|i: int|
            0 <= i < decimal_bytes(n).len() ==> 48 <= #[trigger] decimal_bytes(n)[i] <= 57,
        digits_value(ascii_chars(decimal_bytes(n))) == n,
    decreases n,
{
    let d = decimal_bytes(n);
    if n >= 10 {
        lemma_decimal_bytes_digits(n / 10);
        let p = decimal_bytes(n / 10);
        assert(ascii_chars(d).drop_last() =~= ascii_chars(p));
        let b = (48 + n % 10) as u8;
        assert(ascii_chars(d).last() == b as char);
        assert((b as char) as u32 == b as u32);
        assert(digits_value(ascii_chars(d)) == 10 * digits_value(ascii_chars(p)) + (n % 10));
        assert(n == 10 * (n / 10) + n % 10);
    } else {
        let b = (48 + n) as u8;
        assert((b as char) as u32 == b as u32);
        assert(ascii_chars(d).drop_last() =~= Seq::<char>::empty());
        assert(digits_value(ascii_chars(d).drop_last()) == 0);
        assert(digits_value(ascii_chars(d)) == n);
    }
}

/// The literal that the decimal representation of `n` reads back as is `n`.
pub proof fn lemma_decimal_roundtrip(n: usize)
    ensures
        usize_literal(ascii_chars(decimal_bytes(n as nat))) == Some(n),
{
    lemma_decimal_bytes_digits(n as nat);
    let cs = ascii_chars(decimal_bytes(n as nat));
    assert(cs[0] != '+') by {
        assert(48 <= decimal_bytes(n as nat)[0] <= 57);
    }
}

/// The characters of `s`, in order.
pub fn str_chars(s: &str) -> (v: Vec<char>)
    ensures
        v@ == s@,
{
    broadcast use vstd::string::group_string_axioms;

    let mut v: Vec<char> = Vec::new();
    for c in it: s.chars()
        invariant
            v@ == it.seq().take(it.index() as int),
    {
        v.push(c);
    }
    assert(v@ =~= s@);
    v
}

// ---------------------------------------------------------------------------
// The `charset` parameter of a `Content-Type` header

/// Unicode `White_Space`, the set of characters that `char::is_whitespace`
/// and `str::trim` recognize.
pub open spec fn is_unicode_whitespace(c: char) -> bool {
    let u = c as u32;
    (9 <= u <= 13) || u == 32 || u == 0x85 || u == 0xA0 || u == 0x1680 || (0x2000 <= u
        <= 0x200A) || u == 0x2028 || u == 0x2029 || u == 0x202F || u == 0x205F || u == 0x3000
}

fn is_whitespace(c: char) -> (b: bool)
    ensures
        b == is_unicode_whitespace(c),
{
    let u = c as u32;
    (9 <= u && u <= 13) || u == 32 || u == 0x85 || u == 0xA0 || u == 0x1680 || (0x2000 <= u
        && u <= 0x200A) || u == 0x2028 || u == 0x2029 || u == 0x202F || u == 0x205F || u
        == 0x3000
}

pub open spec fn trim_start(s: Seq<char>) -> Seq<char>
    decreases s.len(),
{
    if s.len() > 0 && is_unicode_whitespace(s[0]) {
        trim_start(s.drop_first())
    } else {
        s
    }
}

pub open spec fn trim_end(s: Seq<char>) -> Seq<char>
    decreases s.len(),
{
    if s.len() > 0 && is_unicode_whitespace(s.last()) {
        trim_end(s.drop_last())
    } else {
        s
    }
}

/// `str::trim`: drops leading and trailing whitespace.
pub open spec fn trim(s: Seq<char>) -> Seq<char> {
    trim_end(trim_start(s))
}

pub open spec fn charset_key() -> Seq<char> {
    seq!['c', 'h', 'a', 'r', 's', 'e', 't', '=']
}

/// `param.strip_prefix("charset=")`.
pub open spec fn strip_charset_key(param: Seq<char>) -> Option<Seq<char>> {
    if param.len() >= 8 && param.take(8) == charset_key() {
        Some(param.skip(8))
    } else {
        None
    }
}

/// Scans `s` for the `;`-separated parameters after the first segment
/// (`seg` holds the part of the current segment read so far, `first` tells
/// whether it is the media type itself) and yields the value of the first
/// trimmed parameter that starts with `charset=`.
pub open spec fn charset_scan(s: Seq<char>, seg: Seq<char>, first: bool) -> Option<Seq<char>>
    decreases s.len(),
{
    if s.len() == 0 {
        if first {
            None
        } else {
            strip_charset_key(trim(seg))
        }
    } else if s[0] == ';' {
        let found = if first {
            None
        } else {
            strip_charset_key(trim(seg))
        };
        if found is Some {
            found
        } else {
            charset_scan(s.drop_first(), Seq::empty(), false)
        }
    } else {
        charset_scan(s.drop_first(), seg.push(s[0]), first)
    }
}

/// The `charset` parameter of a media type, as
/// `value.split(';').skip(1).map(str::trim).find_map(|p| p.strip_prefix("charset="))`
/// finds it.
pub open spec fn charset_param(value: Seq<char>) -> Option<Seq<char>> {
    charset_scan(value, Seq::empty(), true)
}

/// A `Content-Type` value is accepted when its charset is `utf-8` or `utf8`.
pub open spec fn accepted_content_type(value: Seq<char>) -> bool {
    charset_param(value) == Some(seq!['u', 't', 'f', '-', '8']) || charset_param(value) == Some(
        seq!['u', 't', 'f', '8'],
    )
}

proof fn lemma_trim_start_step(v: Seq<char>, i: int, b: int)
    requires
        0 <= i < b <= v.len(),
        is_unicode_whitespace(v[i]),
    ensures
        trim_start(v.subrange(i, b)) == trim_start(v.subrange(i + 1, b)),
{
    assert(v.subrange(i, b).drop_first() =~= v.subrange(i + 1, b));
}

proof fn lemma_trim_end_step(v: Seq<char>, a: int, j: int)
    requires
        0 <= a < j <= v.len(),
        is_unicode_whitespace(v[j - 1]),
    ensures
        trim_end(v.subrange(a, j)) == trim_end(v.subrange(a, j - 1)),
{
    assert(v.subrange(a, j).drop_last() =~= v.subrange(a, j - 1));
}

/// The bounds of `trim(v[a..b])` inside `v`.
fn trim_bounds(v: &Vec<char>, a: usize, b: usize) -> (r: (usize, usize))
    requires
        a <= b <= v.len(),
    ensures
        a <= r.0 <= r.1 <= b,
        v@.subrange(r.0 as int, r.1 as int) == trim(v@.subrange(a as int, b as int)),
{
    let mut i = a;
    while i < b && is_whitespace(v[i])
        invariant
            a <= i <= b <= v.len(),
            trim_start(v@.subrange(a as int, b as int)) == trim_start(
                v@.subrange(i as int, b as int),
            ),
        decreases b - i,
    {
        proof {
            lemma_trim_start_step(v@, i as int, b as int);
        }
        i = i + 1;
    }
    assert(trim_start(v@.subrange(i as int, b as int)) == v@.subrange(i as int, b as int));
    let mut j = b;
    while j > i && is_whitespace(v[j - 1])
        invariant
            a <= i <= j <= b <= v.len(),
            trim_end(v@.subrange(i as int, b as int)) == trim_end(v@.subrange(i as int, j as int)),
        decreases j - i,
    {
        proof {
            lemma_trim_end_step(v@, i as int, j as int);
        }
        j = j - 1;
    }
    (i, j)
}

/// Whether `v[start..end]` equals `lit`.
fn range_equals(v: &Vec<char>, start: usize, end: usize, lit: &[char]) -> (r: bool)
    requires
        start <= end <= v.len(),
    ensures
        r == (v@.subrange(start as int, end as int) == lit@),
{
    if end - start != lit.len() {
        return false;
    }
    let mut k: usize = 0;
    while k < lit.len()
        invariant
            start <= end <= v.len(),
            end - start == lit@.len(),
            k <= lit@.len(),
            forall|t: int| 0 <= t < k ==> v@[start + t] == lit@[t],
        decreases lit.len() - k,
    {
        if v[start + k] != lit[k] {
            assert(v@.subrange(start as int, end as int)[k as int] != lit@[k as int]);
            return false;
        }
        k = k + 1;
    }
    assert(v@.subrange(start as int, end as int) =~= lit@);
    true
}

/// The charset found in the parameter `v[a..b]`, as a range of `v`.
fn parameter_charset(v: &Vec<char>, a: usize, b: usize) -> (r: Option<(usize, usize)>)
    requires
        a <= b <= v.len(),
    ensures
        match r {
            Some((x, y)) => x <= y <= v.len() && strip_charset_key(trim(v@.subrange(a as int, b as int)))
                == Some(v@.subrange(x as int, y as int)),
            None => strip_charset_key(trim(v@.subrange(a as int, b as int))) is None,
        },
{
    let (i, j) = trim_bounds(v, a, b);
    let key: [char; 8] = ['c', 'h', 'a', 'r', 's', 'e', 't', '='];
    assert(key@ == charset_key());
    if j - i >= 8 && range_equals(v, i, i + 8, key.as_slice()) {
        assert(v@.subrange(i as int, j as int).take(8) =~= v@.subrange(i as int, i + 8));
        assert(v@.subrange(i as int, j as int).skip(8) =~= v@.subrange(i + 8, j as int));
        Some((i + 8, j))
    } else {
        proof {
            if j - i >= 8 {
                assert(v@.subrange(i as int, j as int).take(8) =~= v@.subrange(
                    i as int,
                    i + 8,
                ));
            }
        }
        None
    }
}

/// Whether the `charset` parameter of `value` names UTF-8.
fn content_type_accepted(value: &Vec<char>) -> (ok: bool)
    ensures
        ok == accepted_content_type(value@),
{
    let n = value.len();
    let mut i: usize = 0;
    let mut seg_start: usize = 0;
    let mut first = true;
    let mut found: Option<(usize, usize)> = None;
    assert(value@.skip(0) =~= value@);
    assert(value@.subrange(0, 0) =~= Seq::<char>::empty());
    while i < n
        invariant_except_break
            n == value@.len(),
            seg_start <= i <= n,
            found is None,
            charset_param(value@) == charset_scan(
                value@.skip(i as int),
                value@.subrange(seg_start as int, i as int),
                first,
            ),
        ensures
            n == value@.len(),
            match found {
                Some((x, y)) => x <= y <= n && charset_param(value@) == Some(
                    value@.subrange(x as int, y as int),
                ),
                None => seg_start <= i == n && charset_param(value@) == charset_scan(
                    value@.skip(i as int),
                    value@.subrange(seg_start as int, i as int),
                    first,
                ),
            },
        decreases n - i,
    {
        let ghost rest = value@.skip(i as int);
        assert(rest[0] == value@[i as int]);
        if value[i] == ';' {
            if !first {
                let f = parameter_charset(value, seg_start, i);
                if f.is_some() {
                    found = f;
                    break;
                }
            }
            assert(rest.drop_first() =~= value@.skip(i + 1));
            assert(value@.subrange((i + 1) as int, (i + 1) as int) =~= Seq::<char>::empty());
            i = i + 1;
            seg_start = i;
            first = false;
        } else {
            assert(rest.drop_first() =~= value@.skip(i + 1));
            assert(value@.subrange(seg_start as int, i as int).push(value@[i as int])
                =~= value@.subrange(seg_start as int, i + 1));
            i = i + 1;
        }
    }
    let charset = match found {
        Some(r) => r,
        None => {
            assert(value@.skip(i as int) =~= Seq::<char>::empty());
            if first {
                return false;
            }
            match parameter_charset(value, seg_start, i) {
                Some(r) => r,
                None => {
                    return false;
                },
            }
        },
    };
    let (x, y) = charset;
    let dashed: [char; 5] = ['u', 't', 'f', '-', '8'];
    let plain: [char; 4] = ['u', 't', 'f', '8'];
    assert(dashed@ == seq!['u', 't', 'f', '-', '8']);
    assert(plain@ == seq!['u', 't', 'f', '8']);
    range_equals(value, x, y, dashed.as_slice()) || range_equals(value, x, y, plain.as_slice())
}

// ---------------------------------------------------------------------------
// Errors

#[verifier::external_type_specification]
#[verifier::external_body]
pub struct ExJsonError(serde_json::Error);

#[verifier::external_type_specification]
#[verifier::external_body]
pub struct ExIoError(std::io::Error);

#[verifier::external_type_specification]
#[verifier::external_body]
pub struct ExHeaderSyntaxError(httparse::Error);

#[verifier::external_type_specification]
#[verifier::external_body]
pub struct ExUtf8Error(std::str::Utf8Error);

/// Errors that can occur when processing an LSP message.
#[derive(Debug)]
pub enum ParseError {
    /// Failed to parse the JSON body.
    Body(serde_json::Error),
    /// Failed to encode the response.
    Encode(std::io::Error),
    /// Failed to parse headers.
    Headers(httparse::Error),
    /// The media type in the `Content-Type` header is invalid.
    InvalidContentType,
    /// The length value in the `Content-Length` header is invalid.
    InvalidContentLength(std::num::ParseIntError),
    /// Request lacks the required `Content-Length` header.
    MissingContentLength,
    /// Request contains invalid UTF8.
    Utf8(std::str::Utf8Error),
}

/// The variant of a [`ParseError`], without its payload.
#[derive(PartialEq, Eq, Structural, Clone, Copy, Debug)]
pub enum ParseErrorKind {
    Body,
    Encode,
    Headers,
    InvalidContentType,
    InvalidContentLength,
    MissingContentLength,
    Utf8,
}

impl ParseError {
    pub open spec fn kind(self) -> ParseErrorKind {
        match self {
            ParseError::Body(_) => ParseErrorKind::Body,
            ParseError::Encode(_) => ParseErrorKind::Encode,
            ParseError::Headers(_) => ParseErrorKind::Headers,
            ParseError::InvalidContentType => ParseErrorKind::InvalidContentType,
            ParseError::InvalidContentLength(_) => ParseErrorKind::InvalidContentLength,
            ParseError::MissingContentLength => ParseErrorKind::MissingContentLength,
            ParseError::Utf8(_) => ParseErrorKind::Utf8,
        }
    }

    /// The variant of this error.
    pub fn error_kind(&self) -> (k: ParseErrorKind)
        ensures
            k == self.kind(),
    {
        match self {
            ParseError::Body(_) => ParseErrorKind::Body,
            ParseError::Encode(_) => ParseErrorKind::Encode,
            ParseError::Headers(_) => ParseErrorKind::Headers,
            ParseError::InvalidContentType => ParseErrorKind::InvalidContentType,
            ParseError::InvalidContentLength(_) => ParseErrorKind::InvalidContentLength,
            ParseError::MissingContentLength => ParseErrorKind::MissingContentLength,
            ParseError::Utf8(_) => ParseErrorKind::Utf8,
        }
    }
}

/// The `Display` text of a JSON error (its message and position).
pub uninterp spec fn json_error_text_of(e: serde_json::Error) -> Seq<char>;

/// The `Display` text of a header syntax error (its description).
pub uninterp spec fn header_error_text_of(e: httparse::Error) -> Seq<char>;

/// The `Display` text of an integer parsing error.
pub uninterp spec fn int_error_text_of(e: std::num::ParseIntError) -> Seq<char>;

/// The `Display` text of a UTF-8 error (where the invalid bytes start).
pub uninterp spec fn utf8_error_text_of(e: std::str::Utf8Error) -> Seq<char>;

/// `Display` of `serde_json::Error`, a function of the error.
#[verifier::external_body]
fn json_error_text(e: &serde_json::Error) -> (s: String)
    ensures
        s@ == json_error_text_of(*e),
{
    e.to_string()
}

/// `Display` of `httparse::Error`, a function of the error.
#[verifier::external_body]
fn header_error_text(e: &httparse::Error) -> (s: String)
    ensures
        s@ == header_error_text_of(*e),
{
    e.to_string()
}

/// `Display` of `ParseIntError`, a function of the error.
#[verifier::external_body]
fn int_error_text(e: &std::num::ParseIntError) -> (s: String)
    ensures
        s@ == int_error_text_of(*e),
{
    e.to_string()
}

/// `Display` of `Utf8Error`, a function of the error.
#[verifier::external_body]
fn utf8_error_text(e: &std::str::Utf8Error) -> (s: String)
    ensures
        s@ == utf8_error_text_of(*e),
{
    e.to_string()
}

/// `Display` of `std::io::Error`. For an error of the operating system the
/// text comes from the system and its locale, so nothing is stated of it.
#[verifier::external_body]
fn io_error_text(e: &std::io::Error) -> String {
    e.to_string()
}

/// `prefix` followed by `rest`.
fn joined(prefix: &str, rest: String) -> (s: String)
    ensures
        s@ == prefix@ + rest@,
{
    let mut s = prefix.to_owned();
    s.append(rest.as_str());
    s
}

impl ParseError {
    /// The text that describes this error (its `Display` form).
    pub fn to_text(&self) -> (s: String)
        ensures
            match self {
                ParseError::Body(e) => s@ == "unable to parse JSON body: "@ + json_error_text_of(*e),
                ParseError::Encode(_) => exists|t: Seq<char>| s@ == "failed to encode response: "@ + t,
                ParseError::Headers(e) => s@ == "failed to parse headers: "@ + header_error_text_of(*e),
                ParseError::InvalidContentType => s@ == "unable to parse content type"@,
                ParseError::InvalidContentLength(e) => s@ == "unable to parse content length: "@
                    + int_error_text_of(*e),
                ParseError::MissingContentLength => s@ == "missing required `Content-Length` header"@,
                ParseError::Utf8(e) => s@ == "request contains invalid UTF8: "@ + utf8_error_text_of(*e),
            },
    {
        match self {
            ParseError::Body(e) => joined("unable to parse JSON body: ", json_error_text(e)),
            ParseError::Encode(e) => joined("failed to encode response: ", io_error_text(e)),
            ParseError::Headers(e) => joined("failed to parse headers: ", header_error_text(e)),
            ParseError::InvalidContentType => "unable to parse content type".to_owned(),
            ParseError::InvalidContentLength(e) => joined(
                "unable to parse content length: ",
                int_error_text(e),
            ),
            ParseError::MissingContentLength => "missing required `Content-Length` header".to_owned(),
            ParseError::Utf8(e) => joined("request contains invalid UTF8: ", utf8_error_text(e)),
        }
    }
}

/// `std::str::from_utf8`: succeeds exactly on valid UTF-8 and then yields the
/// characters that the bytes encode.
#[verifier::external_body]
fn utf8_text(v: &[u8]) -> (r: Result<&str, std::str::Utf8Error>)
    ensures
        r is Ok <==> valid_utf8(v@),
        r matches Ok(s) ==> s@ == decode_utf8(v@),
{
    std::str::from_utf8(v)
}

// ---------------------------------------------------------------------------
// Headers

/// One header line: its name and its value, as bytes.
pub struct RawHeader {
    pub name: Vec<u8>,
    pub value: Vec<u8>,
}

impl View for RawHeader {
    type V = (Seq<u8>, Seq<u8>);

    open spec fn view(&self) -> (Seq<u8>, Seq<u8>) {
        (self.name@, self.value@)
    }
}

/// What scanning the start of a buffer for a header block found.
pub enum HeaderScan {
    /// A complete header block of `consumed` bytes, with its headers in order.
    Complete { consumed: usize, headers: Vec<RawHeader> },
    /// The buffer ends before the header block does.
    Partial,
    /// The bytes are not a header block.
    Invalid(httparse::Error),
}

/// A [`HeaderScan`] as plain values.
pub enum HeaderScanView {
    Complete(usize, Seq<(Seq<u8>, Seq<u8>)>),
    Partial,
    Invalid,
}

pub open spec fn header_views(hs: Seq<RawHeader>) -> Seq<(Seq<u8>, Seq<u8>)> {
    hs.map_values(|h: RawHeader| h@)
}

impl View for HeaderScan {
    type V = HeaderScanView;

    open spec fn view(&self) -> HeaderScanView {
        match self {
            HeaderScan::Complete { consumed, headers } => HeaderScanView::Complete(
                *consumed,
                header_views(headers@),
            ),
            HeaderScan::Partial => HeaderScanView::Partial,
            HeaderScan::Invalid(_) => HeaderScanView::Invalid,
        }
    }
}

/// What `httparse::parse_headers` finds at the start of `src` when given
/// room for `capacity` headers.
pub uninterp spec fn header_block(src: Seq<u8>, capacity: usize) -> HeaderScanView;

/// The bytes of `Content-Length`.
pub open spec fn content_length_name() -> Seq<u8> {
    seq![67u8, 111, 110, 116, 101, 110, 116, 45, 76, 101, 110, 103, 116, 104]
}

/// The bytes of `Content-Type`.
pub open spec fn content_media_name() -> Seq<u8> {
    seq![67u8, 111, 110, 116, 101, 110, 116, 45, 84, 121, 112, 101]
}

/// Nonempty and made of ASCII decimal digits only.
pub open spec fn ascii_digits(d: Seq<u8>) -> bool {
    d.len() > 0 && forall|i: int| 0 <= i < d.len() ==> 48 <= #[trigger] d[i] <= 57
}

/// `Content-Length: <digits>\r\n\r\n`: a header block with one header.
pub open spec fn length_line(digits: Seq<u8>) -> Seq<u8> {
    content_length_name() + seq![58u8, 32u8] + digits + seq![13u8, 10u8, 13u8, 10u8]
}

/// `httparse::parse_headers` on the bytes of `src`, with room for `capacity`
/// headers. Of its result the contract states that it is a function of the
/// bytes and the capacity (`header_block`); that a complete block lies within
/// the bytes and holds at most `capacity` headers; that a block made of a
/// single `Content-Length` line whose value is a nonempty run of decimal digits
/// parses as that one header, as the crate's header loop does for a token
/// name, a colon, a space, value bytes and `\r\n`, followed by the `\r\n` that
/// ends the block; and that a complete block is found the same whatever
/// bytes follow it, since the parser returns at the line that ends the block.
#[verifier::external_body]
fn scan_headers(src: &BytesMut, capacity: usize) -> (r: HeaderScan)
    ensures
        r@ == header_block(buffer_bytes(*src), capacity),
        r@ matches HeaderScanView::Complete(n, hs) ==> n <= buffer_bytes(*src).len() && hs.len()
            <= capacity,
        forall|d: Seq<u8>|
            #[trigger] length_line(d).is_prefix_of(buffer_bytes(*src)) && ascii_digits(d)
                && capacity >= 1 ==> r@ == HeaderScanView::Complete(
                length_line(d).len() as usize,
                seq![(content_length_name(), d)],
            ),
        r@ is Complete ==> forall|more: Seq<u8>|
            #[trigger] header_block(buffer_bytes(*src) + more, capacity) == r@,
{
    let mut dst = vec![httparse::EMPTY_HEADER; capacity];
    match httparse::parse_headers(src, &mut dst) {
        Ok(httparse::Status::Complete((consumed, hs))) => HeaderScan::Complete {
            consumed,
            headers: hs.iter().map(
                |h| RawHeader { name: h.name.as_bytes().to_vec(), value: h.value.to_vec() },
            ).collect(),
        },
        Ok(httparse::Status::Partial) => HeaderScan::Partial,
        Err(e) => HeaderScan::Invalid(e),
    }
}

/// Whether `v` holds exactly the bytes of `lit`.
fn bytes_equal(v: &Vec<u8>, lit: &[u8]) -> (r: bool)
    ensures
        r == (v@ == lit@),
{
    if v.len() != lit.len() {
        return false;
    }
    let mut k: usize = 0;
    while k < lit.len()
        invariant
            v@.len() == lit@.len(),
            k <= lit@.len(),
            forall|t: int| 0 <= t < k ==> v@[t] == lit@[t],
        decreases lit.len() - k,
    {
        if v[k] != lit[k] {
            return false;
        }
        k = k + 1;
    }
    assert(v@ =~= lit@);
    true
}

/// The outcome of reading the headers `hs` in order, starting with the
/// content length `len`: the last `Content-Length` wins, every
/// `Content-Type` must name UTF-8, and other headers are ignored.
pub open spec fn headers_verdict(hs: Seq<(Seq<u8>, Seq<u8>)>, len: Option<usize>) -> Result<
    usize,
    ParseErrorKind,
>
    decreases hs.len(),
{
    if hs.len() == 0 {
        match len {
            Some(n) => Ok(n),
            None => Err(ParseErrorKind::MissingContentLength),
        }
    } else {
        let name = hs[0].0;
        let value = hs[0].1;
        if name == content_length_name() {
            if !valid_utf8(value) {
                Err(ParseErrorKind::Utf8)
            } else {
                match usize_literal(decode_utf8(value)) {
                    Some(n) => headers_verdict(hs.drop_first(), Some(n)),
                    None => Err(ParseErrorKind::InvalidContentLength),
                }
            }
        } else if name == content_media_name() {
            if !valid_utf8(value) {
                Err(ParseErrorKind::Utf8)
            } else if accepted_content_type(decode_utf8(value)) {
                headers_verdict(hs.drop_first(), len)
            } else {
                Err(ParseErrorKind::InvalidContentType)
            }
        } else {
            headers_verdict(hs.drop_first(), len)
        }
    }
}

/// Reads the content length out of a header block.
pub fn decode_headers(headers: &Vec<RawHeader>) -> (r: Result<usize, ParseError>)
    ensures
        match headers_verdict(header_views(headers@), None) {
            Ok(n) => r matches Ok(m) && m == n,
            Err(k) => r matches Err(e) && e.kind() == k,
        },
{
    let length_name: [u8; 14] = [67, 111, 110, 116, 101, 110, 116, 45, 76, 101, 110, 103, 116, 104];
    let media_name: [u8; 12] = [67, 111, 110, 116, 101, 110, 116, 45, 84, 121, 112, 101];
    assert(length_name@ == content_length_name());
    assert(media_name@ == content_media_name());
    let ghost all = header_views(headers@);
    let mut content_len: Option<usize> = None;
    let mut i: usize = 0;
    assert(all.skip(0) =~= all);
    while i < headers.len()
        invariant
            i <= headers@.len(),
            all == header_views(headers@),
            length_name@ == content_length_name(),
            media_name@ == content_media_name(),
            headers_verdict(all, None) == headers_verdict(all.skip(i as int), content_len),
        decreases headers.len() - i,
    {
        let h = &headers[i];
        let ghost rest = all.skip(i as int);
        assert(all[i as int] == headers@[i as int]@);
        assert(rest[0] == h@);
        assert(rest.len() > 0);
        assert(rest[0].0 == h.name@ && rest[0].1 == h.value@);
        assert(rest.drop_first() =~= all.skip(i + 1));
        if bytes_equal(&h.name, length_name.as_slice()) {
            match utf8_text(h.value.as_slice()) {
                Err(e) => {
                    return Err(ParseError::Utf8(e));
                },
                Ok(text) => match parse_usize(text) {
                    Err(e) => {
                        return Err(ParseError::InvalidContentLength(e));
                    },
                    Ok(n) => {
                        content_len = Some(n);
                    },
                },
            }
        } else if bytes_equal(&h.name, media_name.as_slice()) {
            match utf8_text(h.value.as_slice()) {
                Err(e) => {
                    return Err(ParseError::Utf8(e));
                },
                Ok(text) => {
                    let chars = str_chars(text);
                    if !content_type_accepted(&chars) {
                        return Err(ParseError::InvalidContentType);
                    }
                },
            }
        }
        i = i + 1;
    }
    match content_len {
        Some(n) => Ok(n),
        None => Err(ParseError::MissingContentLength),
    }
}

// ---------------------------------------------------------------------------
// Resynchronizing after a bad header block

pub open spec fn occurs_at(hay: Seq<u8>, needle: Seq<u8>, i: int) -> bool {
    0 <= i && i + needle.len() <= hay.len() && hay.subrange(i, i + needle.len()) == needle
}

/// The index of the first occurrence of `needle` in `hay`, if any.
pub open spec fn first_occurrence(hay: Seq<u8>, needle: Seq<u8>) -> Option<int> {
    if exists|i: int| occurs_at(hay, needle, i) {
        Some(
            choose|i: int|
                occurs_at(hay, needle, i) && forall|j: int| 0 <= j < i ==> !occurs_at(hay, needle, j),
        )
    } else {
        None
    }
}

/// How many bytes to drop so that the buffer starts at the next
/// `Content-Length`; nothing when there is none.
pub open spec fn resync_len(b: Seq<u8>) -> int {
    match first_occurrence(b, content_length_name()) {
        Some(i) => i,
        None => 0,
    }
}

/// `memchr::memmem::find`: the index of the first occurrence of `needle` in
/// the bytes of `hay`, or `None` when it does not occur.
#[verifier::external_body]
fn find_bytes(hay: &BytesMut, needle: &[u8]) -> (r: Option<usize>)
    ensures
        match r {
            Some(i) => occurs_at(buffer_bytes(*hay), needle@, i as int) && forall|j: int|
                0 <= j < i ==> !occurs_at(buffer_bytes(*hay), needle@, j),
            None => forall|j: int| !occurs_at(buffer_bytes(*hay), needle@, j),
        },
{
    memchr::memmem::find(hay, needle)
}

/// The number of bytes up to the next `Content-Length` in `src`.
fn resync_distance(src: &BytesMut) -> (k: usize)
    ensures
        k == resync_len(buffer_bytes(*src)),
        k <= buffer_bytes(*src).len(),
{
    let marker: [u8; 14] = [67, 111, 110, 116, 101, 110, 116, 45, 76, 101, 110, 103, 116, 104];
    assert(marker@ == content_length_name());
    let ghost b = buffer_bytes(*src);
    match find_bytes(src, marker.as_slice()) {
        Some(i) => {
            let ghost c = choose|c: int|
                occurs_at(b, content_length_name(), c) && forall|j: int|
                    0 <= j < c ==> !occurs_at(b, content_length_name(), j);
            assert(occurs_at(b, content_length_name(), i as int));
            assert(c == i) by {
                if c < i {
                    assert(!occurs_at(b, content_length_name(), c));
                } else if c > i {
                    assert(!occurs_at(b, content_length_name(), i as int));
                }
            }
            i
        },
        None => 0,
    }
}

// ---------------------------------------------------------------------------
// Framing

/// The outcome of one decoding step: the message text (or nothing yet, or
/// the error), the content length still awaited, and the bytes left over.
pub type FrameStep = (Result<Option<Seq<char>>, ParseErrorKind>, Option<usize>, Seq<u8>);

/// Reading a body of `n` bytes from `buf`.
pub open spec fn body_step(n: usize, buf: Seq<u8>) -> FrameStep {
    if buf.len() < n {
        (Ok(None), Some(n), buf)
    } else if !valid_utf8(buf.take(n as int)) {
        (Err(ParseErrorKind::Utf8), Some(n), buf)
    } else {
        let text = decode_utf8(buf.take(n as int));
        (
            Ok(
                if text.len() == 0 {
                    None
                } else {
                    Some(text)
                },
            ),
            None,
            buf.skip(n as int),
        )
    }
}

/// The room given to the header parser: one `Content-Length` and one
/// `Content-Type` line.
pub open spec fn header_capacity() -> usize {
    2
}

/// One decoding step from state `awaiting` (the length of a body whose
/// headers were already read) on the buffered bytes `buf`.
pub open spec fn frame_step(awaiting: Option<usize>, buf: Seq<u8>) -> FrameStep {
    match awaiting {
        Some(n) => body_step(n, buf),
        None => match header_block(buf, header_capacity()) {
            HeaderScanView::Invalid => (Err(ParseErrorKind::Headers), None, buf),
            HeaderScanView::Partial => (Ok(None), None, buf),
            HeaderScanView::Complete(hl, hs) => match headers_verdict(hs, None) {
                Ok(n) => body_step(n, buf.skip(hl as int)),
                Err(k) => {
                    let rest = if k == ParseErrorKind::MissingContentLength {
                        buf
                    } else {
                        buf.skip(hl as int)
                    };
                    (Err(k), None, rest.skip(resync_len(rest)))
                },
            },
        },
    }
}

/// Whether a decoding step from state `awaiting` on `buf` stops to wait for
/// more bytes: the header block or the body is not all there yet.
pub open spec fn waits_for_more(awaiting: Option<usize>, buf: Seq<u8>) -> bool {
    match awaiting {
        Some(n) => buf.len() < n,
        None => match header_block(buf, header_capacity()) {
            HeaderScanView::Partial => true,
            HeaderScanView::Complete(hl, hs) => match headers_verdict(hs, None) {
                Ok(n) => buf.len() - hl < n,
                Err(_) => false,
            },
            HeaderScanView::Invalid => false,
        },
    }
}

/// Waiting loses nothing: when the step from `awaiting` on `buf` waits for
/// more bytes and leaves state `after` and bytes `rest`, the next step, once
/// any `more` bytes have arrived, decodes as one step on all the bytes from
/// the start would. So a message decodes the same however its bytes are
/// split into chunks.
pub open spec fn resumes_as_whole(awaiting: Option<usize>, buf: Seq<u8>, after: Option<usize>, rest: Seq<
    u8,
>) -> bool {
    waits_for_more(awaiting, buf) ==> forall|more: Seq<u8>|
        #[trigger] frame_step(after, rest + more) == frame_step(awaiting, buf + more)
}

/// `left` is what resynchronizing leaves of `rest`: `rest` from the first
/// occurrence of `Content-Length` on, or all of `rest` when it holds none.
pub open spec fn resynced_from(rest: Seq<u8>, left: Seq<u8>) -> bool {
    exists|i: int|
        0 <= i <= rest.len() && left == rest.skip(i) && ((occurs_at(rest, content_length_name(), i)
            && forall|j: int| 0 <= j < i ==> !occurs_at(rest, content_length_name(), j)) || (i == 0
            && forall|j: int| !occurs_at(rest, content_length_name(), j)))
}

/// A complete header block that gives no content length is reported as its
/// error, and decoding resumes at the next message: the block is dropped
/// (except when it lacks `Content-Length`, which may start later in the
/// bytes) and so are the bytes before the next `Content-Length`, so a
/// message that follows a bad one is decoded next.
pub proof fn lemma_bad_header_block_resyncs(
    buf: Seq<u8>,
    hl: usize,
    hs: Seq<(Seq<u8>, Seq<u8>)>,
    k: ParseErrorKind,
)
    requires
        header_block(buf, header_capacity()) == HeaderScanView::Complete(hl, hs),
        hl <= buf.len(),
        headers_verdict(hs, None) == Err::<usize, ParseErrorKind>(k),
    ensures
        frame_step(None, buf).0 == Err::<Option<Seq<char>>, ParseErrorKind>(k),
        frame_step(None, buf).1 is None,
        k != ParseErrorKind::MissingContentLength ==> resynced_from(
            buf.skip(hl as int),
            frame_step(None, buf).2,
        ),
        k == ParseErrorKind::MissingContentLength ==> resynced_from(buf, frame_step(None, buf).2),
{
    let rest = if k == ParseErrorKind::MissingContentLength {
        buf
    } else {
        buf.skip(hl as int)
    };
    assert(frame_step(None, buf).2 == rest.skip(resync_len(rest)));
    lemma_resync_len(rest);
}

/// Some occurrence at or before `i` has none before it.
proof fn lemma_first_occurrence_exists(hay: Seq<u8>, needle: Seq<u8>, i: int)
    requires
        occurs_at(hay, needle, i),
    ensures
        exists|c: int|
            occurs_at(hay, needle, c) && forall|j: int| 0 <= j < c ==> !occurs_at(hay, needle, j),
    decreases i,
{
    if exists|j: int| 0 <= j < i && occurs_at(hay, needle, j) {
        let j = choose|j: int| 0 <= j < i && occurs_at(hay, needle, j);
        lemma_first_occurrence_exists(hay, needle, j);
    } else {
        assert(occurs_at(hay, needle, i) && forall|j: int| 0 <= j < i ==> !occurs_at(hay, needle, j));
    }
}

/// Dropping `resync_len(rest)` bytes resynchronizes at the first
/// `Content-Length`.
proof fn lemma_resync_len(rest: Seq<u8>)
    ensures
        resynced_from(rest, rest.skip(resync_len(rest))),
{
    let n = content_length_name();
    if exists|i: int| occurs_at(rest, n, i) {
        let i = choose|i: int| occurs_at(rest, n, i);
        lemma_first_occurrence_exists(rest, n, i);
        let c = choose|c: int| occurs_at(rest, n, c) && forall|j: int| 0 <= j < c ==> !occurs_at(rest, n, j);
        assert(first_occurrence(rest, n) == Some(c));
        assert(resync_len(rest) == c);
        assert(0 <= c <= rest.len());
    } else {
        assert(resync_len(rest) == 0);
        assert(rest.skip(0) =~= rest);
    }
}

/// The bytes that frame a message body: `Content-Length: <n>\r\n\r\n` and
/// the body.
pub open spec fn frame(body: Seq<u8>) -> Seq<u8> {
    length_line(decimal_bytes(body.len())) + body
}


pub open spec fn pow10(k: nat) -> nat
    decreases k,
{
    if k == 0 {
        1
    } else {
        10 * pow10((k - 1) as nat)
    }
}

proof fn lemma_decimal_bytes_len(n: nat, k: nat)
    requires
        k >= 1,
        n < pow10(k),
    ensures
        decimal_bytes(n).len() <= k,
    decreases n,
{
    if n >= 10 {
        assert(k >= 2) by {
            if k == 1 {
                assert(pow10(0) == 1);
            }
        }
        assert(pow10(k) == 10 * pow10((k - 1) as nat));
        lemma_decimal_bytes_len(n / 10, (k - 1) as nat);
    }
}

/// A `usize` has at most twenty decimal digits.
proof fn lemma_decimal_bytes_usize(n: usize)
    ensures
        decimal_bytes(n as nat).len() <= 20,
{
    reveal_with_fuel(pow10, 21);
    assert(pow10(20) == 100000000000000000000nat);
    lemma_decimal_bytes_len(n as nat, 20);
}

/// The decimal digits of a length are valid UTF-8 that reads back as the
/// characters with the same codes.
proof fn lemma_decimal_bytes_text(n: nat)
    ensures
        valid_utf8(decimal_bytes(n)),
        decode_utf8(decimal_bytes(n)) == ascii_chars(decimal_bytes(n)),
{
    let d = decimal_bytes(n);
    let cs = ascii_chars(d);
    lemma_decimal_bytes_digits(n);
    assert(is_ascii_chars(cs)) by {
        assert forall|i: int| 0 <= i < cs.len() implies '\0' <= #[trigger] cs[i] <= '\u{7f}' by {
            assert(48 <= d[i] <= 57);
            assert((d[i] as char) as u32 == d[i] as u32);
        }
    }
    is_ascii_chars_encode_utf8(cs);
    assert forall|i: int| 0 <= i < d.len() implies #[trigger] encode_utf8(cs)[i] == d[i] by {
        assert(cs[i] as u8 == encode_utf8(cs)[i]);
        assert((d[i] as char) as u32 == d[i] as u32);
    }
    assert(encode_utf8(cs) =~= d);
    encode_utf8_valid_utf8(cs);
    encode_utf8_decode_utf8(cs);
}

/// One decoding step on `buf` yields `text` (nothing, when it is empty) and
/// leaves the bytes after its frame.
pub open spec fn yields_frame_of(text: Seq<char>, buf: Seq<u8>) -> bool {
    frame_step(None, buf) == (
        Ok::<Option<Seq<char>>, ParseErrorKind>(
            if text.len() == 0 {
                None
            } else {
                Some(text)
            },
        ),
        None::<usize>,
        buf.skip(frame(encode_utf8(text)).len() as int),
    )
}

/// One decoding step on a buffer that starts with the frame of `text`,
/// given what the header parser makes of that frame's header line.
proof fn lemma_frame_step_of_frame(text: Seq<char>, buf: Seq<u8>)
    requires
        frame(encode_utf8(text)).is_prefix_of(buf),
        encode_utf8(text).len() <= usize::MAX,
        header_block(buf, header_capacity()) == HeaderScanView::Complete(
            length_line(decimal_bytes(encode_utf8(text).len())).len() as usize,
            seq![(content_length_name(), decimal_bytes(encode_utf8(text).len()))],
        ),
    ensures
        yields_frame_of(text, buf),
{
    let body = encode_utf8(text);
    let n = body.len() as usize;
    let d = decimal_bytes(n as nat);
    let line = length_line(d);
    let hs = seq![(content_length_name(), d)];
    lemma_decimal_bytes_text(n as nat);
    lemma_decimal_roundtrip(n);
    lemma_decimal_bytes_usize(n);
    assert(hs[0].0 == content_length_name());
    assert(hs[0].1 == d);
    assert(usize_literal(decode_utf8(d)) == Some(n));
    assert(hs.drop_first() =~= Seq::<(Seq<u8>, Seq<u8>)>::empty());
    assert(headers_verdict(hs.drop_first(), Some(n)) == Ok::<usize, ParseErrorKind>(n));
    assert(headers_verdict(hs, None) == Ok::<usize, ParseErrorKind>(n));
    let after = buf.skip(line.len() as int);
    assert(after.take(n as int) =~= body) by {
        assert forall|i: int| 0 <= i < n implies after[i] == body[i] by {
            assert(buf[line.len() + i] == frame(body)[line.len() + i]);
        }
    }
    encode_utf8_valid_utf8(text);
    encode_utf8_decode_utf8(text);
    assert(text.len() == 0 <==> body.len() == 0) by {
        if text.len() > 0 {
            is_ascii_chars_encode_utf8(seq![]);
            assert(decode_utf8(body) == text);
            if body.len() == 0 {
                assert(body =~= encode_utf8(Seq::<char>::empty()));
            }
        } else {
            assert(text =~= Seq::<char>::empty());
        }
    }
    assert(after.skip(n as int) =~= buf.skip(frame(body).len() as int));
}


/// Every frame at the front of `buf` decodes to its text, given what the
/// header parser makes of a `Content-Length` line.
proof fn lemma_frames_decode(buf: Seq<u8>)
    requires
        forall|d: Seq<u8>|
            #[trigger] length_line(d).is_prefix_of(buf) && ascii_digits(d) ==> header_block(
                buf,
                header_capacity(),
            ) == HeaderScanView::Complete(
                length_line(d).len() as usize,
                seq![(content_length_name(), d)],
            ),
    ensures
        forall|text: Seq<char>|
            #[trigger] frame(encode_utf8(text)).is_prefix_of(buf) && encode_utf8(text).len()
                <= usize::MAX ==> yields_frame_of(text, buf),
{
    assert forall|text: Seq<char>|
        #[trigger] frame(encode_utf8(text)).is_prefix_of(buf) && encode_utf8(text).len()
            <= usize::MAX implies yields_frame_of(text, buf) by {
        let d = decimal_bytes(encode_utf8(text).len());
        lemma_decimal_bytes_digits(encode_utf8(text).len());
        assert(ascii_digits(d));
        assert(length_line(d).is_prefix_of(buf)) by {
            assert forall|i: int| 0 <= i < length_line(d).len() implies buf[i] == length_line(
                d,
            )[i] by {
                assert(frame(encode_utf8(text))[i] == length_line(d)[i]);
            }
        }
        lemma_frame_step_of_frame(text, buf);
    }
}

/// After a header block of `consumed` bytes that yields no content length:
/// drops the block (unless the error is that it has no `Content-Length`)
/// and then the bytes before the next `Content-Length`; hands `err` back.
fn resync_after(err: ParseError, missing: bool, consumed: usize, src: &mut BytesMut) -> (e: ParseError)
    requires
        consumed <= buffer_bytes(*old(src)).len(),
        missing == (err.kind() == ParseErrorKind::MissingContentLength),
    ensures
        e == err,
        ({
            let rest = if missing {
                buffer_bytes(*old(src))
            } else {
                buffer_bytes(*old(src)).skip(consumed as int)
            };
            buffer_bytes(*final(src)) == rest.skip(resync_len(rest))
        }),
        exists|k: int|
            0 <= k <= buffer_bytes(*old(src)).len() && buffer_bytes(*final(src)) == buffer_bytes(
                *old(src),
            ).skip(k),
{
    let ghost start = buffer_bytes(*src);
    let ghost used: int = if missing {
        0
    } else {
        consumed as int
    };
    if !missing {
        buffer_advance(src, consumed);
    }
    proof {
        assert(start.skip(0) =~= start);
        assert(buffer_bytes(*src) == start.skip(used));
    }
    let skip = resync_distance(src);
    buffer_advance(src, skip);
    proof {
        lemma_skip_skip(start, used, skip as int);
    }
    err
}

proof fn lemma_skip_skip(s: Seq<u8>, a: int, b: int)
    requires
        0 <= a <= s.len(),
        0 <= b <= s.len() - a,
    ensures
        s.skip(a).skip(b) == s.skip(a + b),
        0 <= a + b <= s.len(),
{
    assert(s.skip(a).skip(b) =~= s.skip(a + b));
}

/// Encodes and decodes Language Server Protocol messages.
pub struct LanguageServerCodec {
    content_len: Option<usize>,
}

impl View for LanguageServerCodec {
    type V = Option<usize>;

    /// The length of the body still awaited after its headers were read.
    closed spec fn view(&self) -> Option<usize> {
        self.content_len
    }
}

#[verifier::external_type_specification]
#[verifier::external_body]
pub struct ExJsonValue(serde_json::Value);

/// `Clone` of a JSON value, which `Value` derives: an equal value.
pub assume_specification[ <serde_json::Value as std::clone::Clone>::clone ](
    v: &serde_json::Value,
) -> (r: serde_json::Value)
    ensures
        r == *v,
;

/// The JSON value that `serde_json::from_str::<serde_json::Value>` reads
/// from `text`; `None` when it does not accept the text.
pub uninterp spec fn json_value_of(text: Seq<char>) -> Option<serde_json::Value>;

/// `serde_json::from_str::<serde_json::Value>`: its outcome is a function of
/// the text (`json_value_of`).
#[verifier::external_body]
fn parse_json_value(text: &str) -> (r: Result<serde_json::Value, serde_json::Error>)
    ensures
        match r {
            Ok(v) => json_value_of(text@) == Some(v),
            Err(_) => json_value_of(text@) is None,
        },
{
    serde_json::from_str(text)
}

/// The text that `serde_json::to_string` writes for a JSON value; `None`
/// when it fails.
pub uninterp spec fn json_text_of(v: serde_json::Value) -> Option<Seq<char>>;

/// `serde_json::to_string` on a JSON value: its outcome is a function of the
/// value (`json_text_of`).
#[verifier::external_body]
pub(crate) fn json_value_to_string(value: &serde_json::Value) -> (r: Result<String, serde_json::Error>)
    ensures
        match r {
            Ok(s) => json_text_of(*value) == Some(s@),
            Err(_) => json_text_of(*value) is None,
        },
{
    serde_json::to_string(value)
}

/// `std::io::Error::from(ErrorKind::OutOfMemory)`.
#[verifier::external_body]
fn out_of_memory_error() -> std::io::Error {
    std::io::Error::from(std::io::ErrorKind::OutOfMemory)
}

/// `Content-Length: <len>\r\n\r\n`.
fn frame_header(len: usize) -> (v: Vec<u8>)
    ensures
        v@ == length_line(decimal_bytes(len as nat)),
{
    let mut v: Vec<u8> = Vec::new();
    let name: [u8; 14] = [67, 111, 110, 116, 101, 110, 116, 45, 76, 101, 110, 103, 116, 104];
    let mut k: usize = 0;
    while k < 14
        invariant
            k <= 14,
            name@ == content_length_name(),
            v@ == content_length_name().take(k as int),
        decreases 14 - k,
    {
        assert(content_length_name().take(k + 1) =~= content_length_name().take(k as int).push(
            name@[k as int],
        ));
        v.push(name[k]);
        k = k + 1;
    }
    assert(content_length_name().take(14) =~= content_length_name());
    v.push(58u8);
    v.push(32u8);
    let digits = decimal_digits(len);
    let mut k: usize = 0;
    let ghost start = v@;
    while k < digits.len()
        invariant
            k <= digits@.len(),
            v@ == start + digits@.take(k as int),
        decreases digits.len() - k,
    {
        assert(digits@.take(k + 1) =~= digits@.take(k as int).push(digits@[k as int]));
        v.push(digits[k]);
        k = k + 1;
    }
    assert(digits@.take(digits@.len() as int) =~= digits@);
    v.push(13u8);
    v.push(10u8);
    v.push(13u8);
    v.push(10u8);
    assert(v@ =~= length_line(decimal_bytes(len as nat)));
    v
}

impl Default for LanguageServerCodec {
    /// A codec that awaits a header block.
    fn default() -> (c: Self)
        ensures
            c@ is None,
    {
        LanguageServerCodec { content_len: None }
    }
}

impl LanguageServerCodec {
    /// A codec that awaits a header block.
    pub fn new() -> (c: Self)
        ensures
            c@ is None,
    {
        LanguageServerCodec { content_len: None }
    }

    /// Reads a body of `n` bytes, if the buffer holds that many.
    fn decode_body(&mut self, n: usize, src: &mut BytesMut) -> (r: Result<Option<String>, ParseError>)
        requires
            old(self)@ == Some(n),
        ensures
            ({
                let (res, st, buf) = body_step(n, buffer_bytes(*old(src)));
                &&& final(self)@ == st
                &&& buffer_bytes(*final(src)) == buf
                &&& match res {
                    Ok(None) => r matches Ok(None),
                    Ok(Some(text)) => r matches Ok(Some(t)) && t@ == text,
                    Err(k) => r matches Err(e) && e.kind() == k,
                }
            }),
            exists|k: int|
                0 <= k <= buffer_bytes(*old(src)).len() && buffer_bytes(*final(src)) == buffer_bytes(
                    *old(src),
                ).skip(k),
            resumes_as_whole(old(self)@, buffer_bytes(*old(src)), final(self)@, buffer_bytes(*final(src))),
    {
        proof {
            assert(buffer_bytes(*src).skip(0) =~= buffer_bytes(*src));
        }
        if buffer_len(src) < n {
            return Ok(None);
        }
        let bytes = buffer_prefix(src, n);
        let text = match utf8_text(bytes.as_slice()) {
            Err(e) => {
                return Err(ParseError::Utf8(e));
            },
            Ok(t) => t,
        };
        let result = if text.is_empty() {
            None
        } else {
            Some(text.to_owned())
        };
        buffer_advance(src, n);
        self.content_len = None;
        Ok(result)
    }

    /// Reads a header block, and then the body if it is there.
    #[verifier::spinoff_prover]
    fn decode_header_block(&mut self, src: &mut BytesMut) -> (r: Result<Option<String>, ParseError>)
        requires
            old(self)@ is None,
        ensures
            ({
                let (res, st, buf) = frame_step(None, buffer_bytes(*old(src)));
                &&& final(self)@ == st
                &&& buffer_bytes(*final(src)) == buf
                &&& match res {
                    Ok(None) => r matches Ok(None),
                    Ok(Some(text)) => r matches Ok(Some(t)) && t@ == text,
                    Err(k) => r matches Err(e) && e.kind() == k,
                }
            }),
            forall|text: Seq<char>|
                #[trigger] frame(encode_utf8(text)).is_prefix_of(buffer_bytes(*old(src)))
                    && encode_utf8(text).len() <= usize::MAX
                    ==> yields_frame_of(text, buffer_bytes(*old(src))),
            exists|k: int|
                0 <= k <= buffer_bytes(*old(src)).len() && buffer_bytes(*final(src)) == buffer_bytes(
                    *old(src),
                ).skip(k),
            resumes_as_whole(None, buffer_bytes(*old(src)), final(self)@, buffer_bytes(*final(src))),
    {
        let ghost start = buffer_bytes(*src);
        proof {
            assert(start.skip(0) =~= start);
        }
        let scan = scan_headers(src, 2);
        proof {
            lemma_frames_decode(buffer_bytes(*src));
        }
        match scan {
            HeaderScan::Invalid(e) => Err(ParseError::Headers(e)),
            HeaderScan::Partial => Ok(None),
            HeaderScan::Complete { consumed, headers } => {
                match decode_headers(&headers) {
                    Ok(n) => {
                        buffer_advance(src, consumed);
                        self.content_len = Some(n);
                        let ghost body = buffer_bytes(*src);
                        let r = self.decode_body(n, src);
                        proof {
                            let k = choose|k: int|
                                0 <= k <= start.skip(consumed as int).len() && buffer_bytes(*src)
                                    == start.skip(consumed as int).skip(k);
                            lemma_skip_skip(start, consumed as int, k);
                            if waits_for_more(None, start) {
                                assert forall|more: Seq<u8>|
                                    #[trigger] frame_step(self@, buffer_bytes(*src) + more)
                                        == frame_step(None, start + more) by {
                                    assert(header_block(start + more, 2) == scan@);
                                    assert((start + more).skip(consumed as int) =~= body + more);
                                    assert(frame_step(self@, buffer_bytes(*src) + more)
                                        == frame_step(Some(n), body + more));
                                }
                            }
                        }
                        r
                    },
                    Err(err) => {
                        let missing = match err {
                            ParseError::MissingContentLength => true,
                            _ => false,
                        };
                        Err(resync_after(err, missing, consumed, src))
                    },
                }
            },
        }
    }

    /// Takes the text of the next whole message off the front of `src`.
    ///
    /// Returns `Ok(None)` when more bytes are needed or the body is empty.
    /// After a bad header block the bytes before the next `Content-Length`
    /// are dropped, so that decoding can resume with the next message.
    pub fn decode_frame(&mut self, src: &mut BytesMut) -> (r: Result<Option<String>, ParseError>)
        ensures
            ({
                let (res, st, buf) = frame_step(old(self)@, buffer_bytes(*old(src)));
                &&& final(self)@ == st
                &&& buffer_bytes(*final(src)) == buf
                &&& match res {
                    Ok(None) => r matches Ok(None),
                    Ok(Some(text)) => r matches Ok(Some(t)) && t@ == text,
                    Err(k) => r matches Err(e) && e.kind() == k,
                }
            }),
            forall|text: Seq<char>|
                #[trigger] frame(encode_utf8(text)).is_prefix_of(buffer_bytes(*old(src)))
                    && old(self)@ is None && encode_utf8(text).len() <= usize::MAX
                    ==> yields_frame_of(text, buffer_bytes(*old(src))),
            resumes_as_whole(old(self)@, buffer_bytes(*old(src)), final(self)@, buffer_bytes(*final(src))),
            old(self)@ is None ==> match header_block(buffer_bytes(*old(src)), header_capacity()) {
                HeaderScanView::Complete(hl, hs) => (hl <= buffer_bytes(*old(src)).len() && headers_verdict(
                    hs,
                    None,
                ) is Err) ==> (r is Err && if headers_verdict(hs, None)
                    == Err::<usize, ParseErrorKind>(ParseErrorKind::MissingContentLength) {
                    resynced_from(buffer_bytes(*old(src)), buffer_bytes(*final(src)))
                } else {
                    resynced_from(buffer_bytes(*old(src)).skip(hl as int), buffer_bytes(*final(src)))
                }),
                _ => true,
            },
            exists|k: int|
                0 <= k <= buffer_bytes(*old(src)).len() && buffer_bytes(*final(src)) == buffer_bytes(
                    *old(src),
                ).skip(k),
    {
        let ghost start = buffer_bytes(*src);
        proof {
            if self@ is None {
                if let HeaderScanView::Complete(hl, hs) = header_block(start, header_capacity()) {
                    if hl <= start.len() {
                        if let Err(k) = headers_verdict(hs, None) {
                            lemma_bad_header_block_resyncs(start, hl, hs, k);
                        }
                    }
                }
            }
        }
        match self.content_len {
            Some(n) => self.decode_body(n, src),
            None => self.decode_header_block(src),
        }
    }

    /// Takes the next whole message off the front of `src` and parses it as
    /// JSON. A body that is not JSON is consumed and reported as
    /// [`ParseError::Body`]; otherwise this behaves as [`Self::decode_frame`].
    pub fn decode(&mut self, src: &mut BytesMut) -> (r: Result<Option<serde_json::Value>, ParseError>)
        ensures
            ({
                let (res, st, buf) = frame_step(old(self)@, buffer_bytes(*old(src)));
                &&& final(self)@ == st
                &&& buffer_bytes(*final(src)) == buf
                &&& match res {
                    Ok(None) => r matches Ok(None),
                    Ok(Some(text)) => match json_value_of(text) {
                        Some(v) => r == Ok::<Option<serde_json::Value>, ParseError>(Some(v)),
                        None => r matches Err(e) && e.kind() == ParseErrorKind::Body,
                    },
                    Err(k) => r matches Err(e) && e.kind() == k,
                }
            }),
            forall|text: Seq<char>|
                #[trigger] frame(encode_utf8(text)).is_prefix_of(buffer_bytes(*old(src)))
                    && old(self)@ is None && encode_utf8(text).len() <= usize::MAX
                    ==> yields_frame_of(text, buffer_bytes(*old(src))),
            resumes_as_whole(old(self)@, buffer_bytes(*old(src)), final(self)@, buffer_bytes(*final(src))),
            old(self)@ is None ==> match header_block(buffer_bytes(*old(src)), header_capacity()) {
                HeaderScanView::Complete(hl, hs) => (hl <= buffer_bytes(*old(src)).len() && headers_verdict(
                    hs,
                    None,
                ) is Err) ==> (r is Err && if headers_verdict(hs, None)
                    == Err::<usize, ParseErrorKind>(ParseErrorKind::MissingContentLength) {
                    resynced_from(buffer_bytes(*old(src)), buffer_bytes(*final(src)))
                } else {
                    resynced_from(buffer_bytes(*old(src)).skip(hl as int), buffer_bytes(*final(src)))
                }),
                _ => true,
            },
            exists|k: int|
                0 <= k <= buffer_bytes(*old(src)).len() && buffer_bytes(*final(src)) == buffer_bytes(
                    *old(src),
                ).skip(k),
    {
        match self.decode_frame(src) {
            Ok(Some(text)) => match parse_json_value(text.as_str()) {
                Ok(v) => Ok(Some(v)),
                Err(e) => Err(ParseError::Body(e)),
            },
            Ok(None) => Ok(None),
            Err(e) => Err(e),
        }
    }

    /// Appends the frame of the message text `msg` to `dst`.
    pub fn encode_text(&self, msg: &str, dst: &mut BytesMut)
        requires
            buffer_bytes(*old(dst)).len() + frame(encode_utf8(msg@)).len() <= isize::MAX,
        ensures
            buffer_bytes(*final(dst)) == buffer_bytes(*old(dst)) + frame(encode_utf8(msg@)),
    {
        let header = frame_header(msg.as_bytes().len());
        buffer_extend(dst, header.as_slice());
        buffer_extend(dst, msg.as_bytes());
        assert(buffer_bytes(*dst) =~= buffer_bytes(*old(dst)) + frame(encode_utf8(msg@)));
    }

    /// Serializes `item` to JSON and appends its frame to `dst`. When the
    /// item cannot be serialized, [`ParseError::Body`] is returned; when the
    /// buffer could not grow to hold the frame, [`ParseError::Encode`]; in
    /// both cases nothing is written.
    pub fn encode(&mut self, item: &serde_json::Value, dst: &mut BytesMut) -> (r: Result<(), ParseError>)
        ensures
            final(self)@ == old(self)@,
            match json_text_of(*item) {
                None => r matches Err(e) && e.kind() == ParseErrorKind::Body && buffer_bytes(
                    *final(dst),
                ) == buffer_bytes(*old(dst)),
                Some(text) => if buffer_bytes(*old(dst)).len() + frame(encode_utf8(text)).len()
                    <= isize::MAX {
                    r is Ok && buffer_bytes(*final(dst)) == buffer_bytes(*old(dst)) + frame(
                        encode_utf8(text),
                    )
                } else {
                    r matches Err(e) && e.kind() == ParseErrorKind::Encode && buffer_bytes(
                        *final(dst),
                    ) == buffer_bytes(*old(dst))
                },
            },
    {
        let msg = match json_value_to_string(item) {
            Ok(m) => m,
            Err(e) => {
                return Err(ParseError::Body(e));
            },
        };
        let text = msg.as_str();
        let text_len = text.as_bytes().len();
        assert(text.spec_bytes() == encode_utf8(text@));
        assert(text_len == encode_utf8(text@).len());
        let header = frame_header(text_len);
        assert(frame(encode_utf8(text@)).len() == header@.len() + text_len);
        let limit = isize::MAX as usize;
        let used = buffer_len(dst);
        if used > limit || text_len > limit - used || header.len() > limit - used - text_len {
            return Err(ParseError::Encode(out_of_memory_error()));
        }
        self.encode_text(text, dst);
        Ok(())
    }
}
} // verus!
