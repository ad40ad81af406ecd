//! Normalizing the short texts the stock features accept: free text, tickers, symbols,
//! digests and URLs.
use vstd::prelude::*;
use vstd::string::*;

use crate::error::{invalid, invalid_field, Error};
use crate::text::{ascii_upper, chars_of, is_space_char, opt_view, str_eq, string_of, to_ascii_upper, trim, trimmed};

verus! {

/// A character in lower case if it is an ASCII capital.
pub open spec fn ascii_lower_char(c: char) -> char {
    if 'A' <= c && c <= 'Z' {
        ((c as u32) + 32) as char
    } else {
        c
    }
}

/// A text with its ASCII letters in upper case, as `to_ascii_uppercase` gives it.
pub open spec fn upper_text(s: Seq<char>) -> Seq<char> {
    s.map_values(|c: char| ascii_upper(c))
}

/// A text with its ASCII letters in lower case, as `to_ascii_lowercase` gives it.
pub open spec fn lower_text(s: Seq<char>) -> Seq<char> {
    s.map_values(|c: char| ascii_lower_char(c))
}

/// A character in lower case if it is an ASCII capital.
fn to_ascii_lower(c: char) -> (r: char)
    ensures
        r == ascii_lower_char(c),
{
    if 'A' <= c && c <= 'Z' {
        ((c as u8) + 32) as char
    } else {
        c
    }
}

/// `s.to_ascii_uppercase()`.
pub fn upper_ascii(s: &str) -> (r: String)
    ensures
        r@ == upper_text(s@),
{
    let v = chars_of(s);
    let mut out: Vec<char> = Vec::new();
    let mut i: usize = 0;
    while i < v.len()
        invariant
            0 <= i <= v@.len(),
            v@ == s@,
            out@ == upper_text(s@.subrange(0, i as int)),
        decreases v@.len() - i,
    {
        out.push(to_ascii_upper(v[i]));
        i = i + 1;
        assert(out@ =~= upper_text(s@.subrange(0, i as int)));
    }
    assert(s@.subrange(0, s@.len() as int) == s@);
    string_of(out.as_slice())
}

/// `s.to_ascii_lowercase()`.
pub fn lower_ascii(s: &str) -> (r: String)
    ensures
        r@ == lower_text(s@),
{
    let v = chars_of(s);
    let mut out: Vec<char> = Vec::new();
    let mut i: usize = 0;
    while i < v.len()
        invariant
            0 <= i <= v@.len(),
            v@ == s@,
            out@ == lower_text(s@.subrange(0, i as int)),
        decreases v@.len() - i,
    {
        out.push(to_ascii_lower(v[i]));
        i = i + 1;
        assert(out@ =~= lower_text(s@.subrange(0, i as int)));
    }
    assert(s@.subrange(0, s@.len() as int) == s@);
    string_of(out.as_slice())
}

/// A trimmed text fit to store: not empty, at most `maximum` characters, and free of
/// carriage returns, line feeds and NUL characters.
pub open spec fn clean_text_ok(t: Seq<char>, maximum: int) -> bool {
    &&& t.len() > 0
    &&& t.len() <= maximum
    &&& forall|i: int| 0 <= i < t.len() ==> #[trigger] t[i] != '\r' && t[i] != '\n' && t[i] != '\0'
}

/// Trims a text and checks it is fit to store.
pub fn clean_text(field: &str, value: &str, maximum: usize) -> (r: Result<String, Error>)
    ensures
        r is Ok <==> clean_text_ok(trimmed(value@), maximum as int),
        r matches Ok(t) ==> t@ == trimmed(value@),
        r matches Err(e) ==> e is Invalid && e->Invalid_0@ == field@ + " has an invalid format"@,
{
    let t = trim(value);
    let v = chars_of(t.as_str());
    if v.len() == 0 || v.len() > maximum {
        return Err(invalid_field(field, " has an invalid format"));
    }
    let mut i: usize = 0;
    while i < v.len()
        invariant
            0 <= i <= v@.len(),
            v@ == t@,
            t@ == trimmed(value@),
            forall|k: int| 0 <= k < i ==> #[trigger] v@[k] != '\r' && v@[k] != '\n' && v@[k] != '\0',
        decreases v@.len() - i,
    {
        if v[i] == '\r' || v[i] == '\n' || v[i] == '\0' {
            assert(trimmed(value@)[i as int] == v@[i as int]);
            return Err(invalid_field(field, " has an invalid format"));
        }
        i = i + 1;
    }
    Ok(t)
}

/// Trims an optional text and checks it.
pub fn clean_optional_text(field: &str, value: &Option<String>, maximum: usize) -> (r: Result<
    Option<String>,
    Error,
>)
    ensures
        value is None ==> r == Ok::<Option<String>, Error>(None),
        value matches Some(v) ==> (r is Ok <==> clean_text_ok(trimmed(v@), maximum as int)),
        value matches Some(v) ==> (r matches Ok(t) ==> t matches Some(x) && x@ == trimmed(v@)),
        r matches Err(e) ==> e is Invalid,
{
    match value {
        None => Ok(None),
        Some(v) => {
            let t = clean_text(field, v.as_str(), maximum)?;
            Ok(Some(t))
        },
    }
}

/// An ASCII letter or digit, a dot or a hyphen.
pub open spec fn ticker_char(c: char) -> bool {
    ('A' <= c && c <= 'Z') || ('a' <= c && c <= 'z') || ('0' <= c && c <= '9') || c == '.' || c
        == '-'
}

/// A US ticker: one to ten letters, digits, dots or hyphens.
pub open spec fn us_ticker_ok(t: Seq<char>) -> bool {
    1 <= t.len() <= 10 && forall|i: int| 0 <= i < t.len() ==> ticker_char(#[trigger] t[i])
}

/// A KRX ticker: exactly six digits.
pub open spec fn krx_ticker_ok(t: Seq<char>) -> bool {
    t.len() == 6 && forall|i: int| 0 <= i < t.len() ==> '0' <= #[trigger] t[i] && t[i] <= '9'
}

/// Whether every character is a ticker character.
fn all_ticker_chars(v: &Vec<char>) -> (r: bool)
    ensures
        r == forall|i: int| 0 <= i < v@.len() ==> ticker_char(#[trigger] v@[i]),
{
    let mut i: usize = 0;
    while i < v.len()
        invariant
            0 <= i <= v@.len(),
            forall|k: int| 0 <= k < i ==> ticker_char(#[trigger] v@[k]),
        decreases v@.len() - i,
    {
        let c = v[i];
        if !(('A' <= c && c <= 'Z') || ('a' <= c && c <= 'z') || ('0' <= c && c <= '9') || c == '.'
            || c == '-') {
            return false;
        }
        i = i + 1;
    }
    true
}

/// Whether every character is a decimal digit.
fn all_digits(v: &Vec<char>) -> (r: bool)
    ensures
        r == forall|i: int| 0 <= i < v@.len() ==> '0' <= #[trigger] v@[i] && v@[i] <= '9',
{
    let mut i: usize = 0;
    while i < v.len()
        invariant
            0 <= i <= v@.len(),
            forall|k: int| 0 <= k < i ==> '0' <= #[trigger] v@[k] && v@[k] <= '9',
        decreases v@.len() - i,
    {
        if !('0' <= v[i] && v[i] <= '9') {
            return false;
        }
        i = i + 1;
    }
    true
}

/// A US ticker as stored: trimmed and in upper case.
pub fn normalize_us_ticker(value: &str) -> (r: Result<String, Error>)
    ensures
        r is Ok <==> us_ticker_ok(upper_text(trimmed(value@))),
        r matches Ok(t) ==> t@ == upper_text(trimmed(value@)),
        r matches Err(e) ==> e is Invalid,
{
    let t = trim(value);
    let ticker = upper_ascii(t.as_str());
    let v = chars_of(ticker.as_str());
    if v.len() == 0 || v.len() > 10 || !all_ticker_chars(&v) {
        return Err(invalid("US ticker must contain 1-10 letters, digits, dots, or hyphens"));
    }
    Ok(ticker)
}

/// An ASCII hexadecimal digit.
pub open spec fn hex_char(c: char) -> bool {
    ('0' <= c && c <= '9') || ('a' <= c && c <= 'f') || ('A' <= c && c <= 'F')
}

/// A SHA-256 digest as stored: trimmed, in lower case, exactly 64 hexadecimal digits.
pub fn normalize_sha256(value: &str) -> (r: Result<String, Error>)
    ensures
        r is Ok <==> (lower_text(trimmed(value@)).len() == 64 && forall|i: int|
            0 <= i < 64 ==> hex_char(#[trigger] lower_text(trimmed(value@))[i])),
        r matches Ok(t) ==> t@ == lower_text(trimmed(value@)),
        r matches Err(e) ==> e is Invalid,
{
    let t = trim(value);
    let digest = lower_ascii(t.as_str());
    let v = chars_of(digest.as_str());
    if v.len() != 64 {
        return Err(invalid("SHA-256 must contain exactly 64 hexadecimal characters"));
    }
    let mut i: usize = 0;
    while i < v.len()
        invariant
            0 <= i <= v@.len(),
            v@ == digest@,
            digest@ == lower_text(trimmed(value@)),
            forall|k: int| 0 <= k < i ==> hex_char(#[trigger] v@[k]),
        decreases v@.len() - i,
    {
        let c = v[i];
        if !(('0' <= c && c <= '9') || ('a' <= c && c <= 'f') || ('A' <= c && c <= 'F')) {
            assert(lower_text(trimmed(value@))[i as int] == c);
            return Err(invalid("SHA-256 must contain exactly 64 hexadecimal characters"));
        }
        i = i + 1;
    }
    Ok(digest)
}

/// Whether `url::Url::parse` accepts a text.
pub uninterp spec fn url_parses(s: Seq<char>) -> bool;

/// The scheme `url::Url::scheme` reports for a text that parses.
pub uninterp spec fn url_scheme(s: Seq<char>) -> Seq<char>;

/// The host `url::Url::host_str` reports for a text that parses, if any.
pub uninterp spec fn url_host(s: Seq<char>) -> Option<Seq<char>>;

/// `url::Url::parse(value)`, then its `scheme()` and `host_str()`, copied out. `None`
/// when the text does not parse. What the parser accepts is named, not stated.
#[verifier::external_body]
fn parse_url(value: &str) -> (r: Option<(String, Option<String>)>)
    ensures
        r is Some <==> url_parses(value@),
        r matches Some(p) ==> p.0@ == url_scheme(value@) && opt_view(p.1) == url_host(value@),
{
    match url::Url::parse(value) {
        Ok(parsed) => Some((
            parsed.scheme().to_owned(),
            match parsed.host_str() {
                Some(host) => Some(host.to_owned()),
                None => None,
            },
        )),
        Err(_) => None,
    }
}

/// A text the `url` crate reads as an HTTPS URL with a host.
pub open spec fn https_url_with_host(s: Seq<char>) -> bool {
    url_parses(s) && url_scheme(s) == "https"@ && url_host(s) is Some
}

/// A trimmed HTTPS URL with a host, of at most 2048 characters.
pub fn validate_https_url(field: &str, value: &str) -> (r: Result<String, Error>)
    ensures
        r is Ok <==> clean_text_ok(trimmed(value@), 2048) && https_url_with_host(trimmed(value@)),
        r matches Ok(t) ==> t@ == trimmed(value@),
        r matches Err(e) ==> e is Invalid,
{
    let t = clean_text(field, value, 2048)?;
    match parse_url(t.as_str()) {
        None => Err(invalid_field(field, " is invalid")),
        Some((scheme, host)) => {
            if !str_eq(scheme.as_str(), "https") || host.is_none() {
                return Err(invalid_field(field, " must be an HTTPS URL"));
            }
            Ok(t)
        },
    }
}

} // verus!
