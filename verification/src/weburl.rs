//! URLs as the `url` crate parses them, held as plain strings.
use vstd::prelude::*;

verus! {

/// The parts of a parsed URL the library reads.
#[derive(Debug, Clone)]
pub struct UrlParts {
    /// The URL's serialization (`Url::as_str`).
    pub text: String,
    pub scheme: String,
    pub host: Option<String>,
    pub path: String,
}

/// The view of URL parts: serialization, scheme, host and path.
pub open spec fn parts_view(p: UrlParts) -> (Seq<char>, Seq<char>, Option<Seq<char>>, Seq<char>) {
    (
        p.text@,
        p.scheme@,
        match p.host {
            Some(h) => Some(h@),
            None => None,
        },
        p.path@,
    )
}

/// The view of an optional parsed URL.
pub open spec fn opt_parts_view(p: Option<UrlParts>) -> Option<
    (Seq<char>, Seq<char>, Option<Seq<char>>, Seq<char>),
> {
    match p {
        Some(q) => Some(parts_view(q)),
        None => None,
    }
}

/// What `url::Url::parse` makes of a string: its serialization, scheme, host and
/// path, or the text of its error when it is not a valid URL.
pub uninterp spec fn url_parse_outcome(s: Seq<char>) -> Result<
    (Seq<char>, Seq<char>, Option<Seq<char>>, Seq<char>),
    Seq<char>,
>;

/// The parts of a string that parses as a URL.
pub open spec fn parsed_url(s: Seq<char>) -> Option<
    (Seq<char>, Seq<char>, Option<Seq<char>>, Seq<char>),
> {
    match url_parse_outcome(s) {
        Ok(p) => Some(p),
        Err(_) => None,
    }
}

/// What `url::Url::join` makes of a reference against a base URL (given by its
/// text): the resolved URL's parts, or `None` when the base or the resolution is
/// invalid.
pub uninterp spec fn joined_url(base: Seq<char>, reference: Seq<char>) -> Option<
    (Seq<char>, Seq<char>, Option<Seq<char>>, Seq<char>),
>;

/// `url::Url::parse`, read out into its parts; its error as text.
#[verifier::external_body]
pub(crate) fn parse_url_or_error(s: &str) -> (p: Result<UrlParts, String>)
    ensures
        match p {
            Ok(q) => url_parse_outcome(s@) == Ok::<_, Seq<char>>(parts_view(q)),
            Err(m) => url_parse_outcome(s@) == Err::<(Seq<char>, Seq<char>, Option<Seq<char>>, Seq<char>), _>(m@),
        },
{
    match url::Url::parse(s) {
        Ok(u) => Ok(UrlParts {
            text: u.as_str().into(),
            scheme: u.scheme().into(),
            host: u.host_str().map(String::from),
            path: u.path().into(),
        }),
        Err(e) => Err(e.to_string()),
    }
}

/// The parts of `s` when it parses as a URL.
pub fn parse_url(s: &str) -> (p: Option<UrlParts>)
    ensures
        opt_parts_view(p) == parsed_url(s@),
{
    match parse_url_or_error(s) {
        Ok(q) => Some(q),
        Err(_) => None,
    }
}

/// `url::Url::join` of `reference` against the URL `base` (parsed first), read out
/// into its parts. Claimed besides: a resolved URL with a host parses back from
/// its serialization to the same parts (the `url` crate checks this round trip
/// among its invariants).
#[verifier::external_body]
pub(crate) fn join_url(base: &str, reference: &str) -> (p: Option<UrlParts>)
    ensures
        opt_parts_view(p) == joined_url(base@, reference@),
        p matches Some(q) ==> (q.host is Some ==> parsed_url(q.text@) == Some(parts_view(q))),
{
    match url::Url::parse(base).and_then(|b| b.join(reference)) {
        Ok(u) => Some(UrlParts {
            text: u.as_str().into(),
            scheme: u.scheme().into(),
            host: u.host_str().map(String::from),
            path: u.path().into(),
        }),
        Err(_) => None,
    }
}

// ---------------------------------------------------------------------------
// Percent-encoding
// ---------------------------------------------------------------------------
/// A char that URL encoding keeps: an ASCII letter or digit, `-`, `_`, `.` or
/// `~`.
pub open spec fn is_unreserved(c: char) -> bool {
    let n = c as u32;
    (48 <= n <= 57) || (65 <= n <= 90) || (97 <= n <= 122) || c == '-' || c == '_' || c == '.'
        || c == '~'
}

/// The UTF-8 bytes of a char.
pub open spec fn utf8_bytes(c: char) -> Seq<int> {
    let n = c as int;
    if n < 0x80 {
        seq![n]
    } else if n < 0x800 {
        seq![0xC0 + n / 64, 0x80 + n % 64]
    } else if n < 0x10000 {
        seq![0xE0 + n / 4096, 0x80 + (n / 64) % 64, 0x80 + n % 64]
    } else {
        seq![0xF0 + n / 262144, 0x80 + (n / 4096) % 64, 0x80 + (n / 64) % 64, 0x80 + n % 64]
    }
}

/// The upper-case hex digit of a value under 16.
pub open spec fn hex_upper(d: int) -> char {
    if d < 10 {
        (48 + d) as char
    } else {
        (55 + d) as char
    }
}

/// Each byte written as `%` and two upper-case hex digits.
pub open spec fn percent_bytes(bs: Seq<int>) -> Seq<char>
    decreases bs.len(),
{
    if bs.len() == 0 {
        Seq::empty()
    } else {
        seq!['%', hex_upper(bs[0] / 16), hex_upper(bs[0] % 16)] + percent_bytes(bs.drop_first())
    }
}

/// A text percent-encoded: unreserved chars kept, every byte of the others
/// written `%XX`.
pub open spec fn percent_encoded(s: Seq<char>) -> Seq<char>
    decreases s.len(),
{
    if s.len() == 0 {
        Seq::empty()
    } else {
        (if is_unreserved(s[0]) {
            seq![s[0]]
        } else {
            percent_bytes(utf8_bytes(s[0]))
        }) + percent_encoded(s.drop_first())
    }
}

/// `urlencoding::encode`. Claimed: the UTF-8 bytes of the text are kept when
/// they are ASCII letters, digits, `-`, `_`, `.` or `~`, and written `%XX`
/// with upper-case hex digits otherwise.
#[verifier::external_body]
pub(crate) fn url_encode(s: &str) -> (e: String)
    ensures
        e@ == percent_encoded(s@),
{
    urlencoding::encode(s).into_owned()
}

} // verus!
