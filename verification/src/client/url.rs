//! Splitting the signaling URL into host, port and path.

use crate::client::error::TransportError;
use crate::seq_util::{first_index, lemma_first_index_at, lemma_first_index_none};
use vstd::prelude::*;

verus! {

/// Whether `char::is_whitespace` holds: the Unicode `White_Space` characters.
pub open spec fn is_white_space(c: char) -> bool {
    let u = c as u32;
    ||| 0x09 <= u <= 0x0D
    ||| u == 0x20
    ||| u == 0x85
    ||| u == 0xA0
    ||| u == 0x1680
    ||| 0x2000 <= u <= 0x200A
    ||| u == 0x2028
    ||| u == 0x2029
    ||| u == 0x202F
    ||| u == 0x205F
    ||| u == 0x3000
}

/// The characters left after dropping leading white space.
pub open spec fn trim_start(s: Seq<char>) -> Seq<char>
    decreases s.len(),
{
    if s.len() > 0 && is_white_space(s[0]) {
        trim_start(s.drop_first())
    } else {
        s
    }
}

/// The characters left after dropping trailing white space.
pub open spec fn trim_end(s: Seq<char>) -> Seq<char>
    decreases s.len(),
{
    if s.len() > 0 && is_white_space(s.last()) {
        trim_end(s.drop_last())
    } else {
        s
    }
}

/// The characters left after dropping leading and trailing white space.
pub open spec fn trimmed(s: Seq<char>) -> Seq<char> {
    trim_end(trim_start(s))
}

/// Whether `char::is_whitespace` holds of a character.
fn white_space(c: char) -> (res: bool)
    ensures
        res == is_white_space(c),
{
    let u = c as u32;
    (0x09 <= u && u <= 0x0D) || u == 0x20 || u == 0x85 || u == 0xA0 || u == 0x1680 || (0x2000 <= u && u
        <= 0x200A) || u == 0x2028 || u == 0x2029 || u == 0x202F || u == 0x205F || u == 0x3000
}

/// Dropping leading white space that ends at `i` leaves the text from `i` on.
proof fn lemma_trim_start_at(s: Seq<char>, i: int)
    requires
        0 <= i <= s.len(),
        forall|k: int| 0 <= k < i ==> is_white_space(#[trigger] s[k]),
        i == s.len() || !is_white_space(s[i]),
    ensures
        trim_start(s) == s.skip(i),
    decreases i,
{
    if i == 0 {
        assert(s.skip(0) =~= s);
    } else {
        let t = s.drop_first();
        assert forall|k: int| 0 <= k < i - 1 implies is_white_space(#[trigger] t[k]) by {
            assert(t[k] == s[k + 1]);
        }
        if i - 1 < t.len() {
            assert(t[i - 1] == s[i]);
        }
        lemma_trim_start_at(t, i - 1);
        assert(t.skip(i - 1) =~= s.skip(i));
    }
}

/// Dropping trailing white space that starts at `j` leaves the text before
/// `j`.
proof fn lemma_trim_end_at(s: Seq<char>, j: int)
    requires
        0 <= j <= s.len(),
        forall|k: int| j <= k < s.len() ==> is_white_space(#[trigger] s[k]),
        j == 0 || !is_white_space(s[j - 1]),
    ensures
        trim_end(s) == s.take(j),
    decreases s.len() - j,
{
    if j == s.len() {
        assert(s.take(j) =~= s);
    } else {
        let t = s.drop_last();
        assert(is_white_space(s[s.len() - 1]));
        assert forall|k: int| j <= k < t.len() implies is_white_space(#[trigger] t[k]) by {
            assert(t[k] == s[k]);
        }
        if j > 0 {
            assert(t[j - 1] == s[j - 1]);
        }
        lemma_trim_end_at(t, j);
        assert(t.take(j) =~= s.take(j));
    }
}

/// Drops leading and trailing white space, as `str::trim` does.
fn trim(s: &str) -> (res: &str)
    ensures
        res@ == trimmed(s@),
{
    let n = s.unicode_len();
    let mut i: usize = 0;
    while i < n && white_space(s.get_char(i))
        invariant
            n == s@.len(),
            i <= n,
            forall|k: int| 0 <= k < i ==> is_white_space(#[trigger] s@[k]),
        decreases n - i,
    {
        i = i + 1;
    }
    let mut j: usize = n;
    while j > i && white_space(s.get_char(j - 1))
        invariant
            n == s@.len(),
            i <= j <= n,
            forall|k: int| j <= k < n ==> is_white_space(#[trigger] s@[k]),
        decreases j - i,
    {
        j = j - 1;
    }
    proof {
        lemma_trim_start_at(s@, i as int);
        let t = s@.skip(i as int);
        assert forall|k: int| j - i <= k < t.len() implies is_white_space(#[trigger] t[k]) by {
            assert(t[k] == s@[k + i]);
        }
        if j > i {
            assert(t[j - i - 1] == s@[j - 1]);
        }
        lemma_trim_end_at(t, j - i);
        assert(t.take(j - i) =~= s@.subrange(i as int, j as int));
    }
    s.substring_char(i, j)
}

/// Whether a character is an ASCII digit.
pub open spec fn is_digit(c: char) -> bool {
    '0' <= c <= '9'
}

/// The value of a sequence of ASCII digits, read in base ten.
pub open spec fn digits_value(s: Seq<char>) -> int
    decreases s.len(),
{
    if s.len() == 0 {
        0
    } else {
        digits_value(s.drop_last()) * 10 + (s.last() as int - '0' as int)
    }
}

/// The sign of a number's text (`true` for a leading `-`) and its text after
/// an optional `+` or `-`.
pub open spec fn sign_and_digits(s: Seq<char>) -> (bool, Seq<char>) {
    if s.len() > 0 && s[0] == '-' {
        (true, s.drop_first())
    } else if s.len() > 0 && s[0] == '+' {
        (false, s.drop_first())
    } else {
        (false, s)
    }
}

/// The `i32` that one or more ASCII digits stand for, negated when
/// `negative`; `None` when a character is not a digit or the value does not
/// fit.
pub open spec fn signed_value(negative: bool, digits: Seq<char>) -> Option<i32> {
    if digits.len() > 0 && (forall|i: int| 0 <= i < digits.len() ==> is_digit(#[trigger] digits[i])) {
        let v = if negative {
            -digits_value(digits)
        } else {
            digits_value(digits)
        };
        if i32::MIN <= v <= i32::MAX {
            Some(v as i32)
        } else {
            None
        }
    } else {
        None
    }
}

/// What `str::parse::<i32>` gives: an optional `+` or `-`, then one or more
/// ASCII digits and nothing else, with a value that fits in an `i32`.
pub open spec fn parse_i32_spec(s: Seq<char>) -> Option<i32> {
    signed_value(sign_and_digits(s).0, sign_and_digits(s).1)
}

/// Digit values are never negative.
proof fn lemma_digits_value_nonneg(s: Seq<char>)
    requires
        forall|k: int| 0 <= k < s.len() ==> is_digit(#[trigger] s[k]),
    ensures
        digits_value(s) >= 0,
    decreases s.len(),
{
    if s.len() > 0 {
        lemma_digits_value_nonneg(s.drop_last());
    }
}

/// A prefix of digits is worth no more than the whole.
proof fn lemma_digits_value_prefix(s: Seq<char>, k: int)
    requires
        forall|j: int| 0 <= j < s.len() ==> is_digit(#[trigger] s[j]),
        0 <= k <= s.len(),
    ensures
        digits_value(s.take(k)) <= digits_value(s),
    decreases s.len(),
{
    if k == s.len() {
        assert(s.take(k) =~= s);
    } else {
        let t = s.drop_last();
        lemma_digits_value_prefix(t, k);
        lemma_digits_value_nonneg(t);
        assert(t.take(k) =~= s.take(k));
    }
}

/// `str::parse::<i32>`: an optional sign, then one or more ASCII digits whose
/// value fits; `None` otherwise.
fn parse_i32(s: &str) -> (res: Option<i32>)
    ensures
        res == parse_i32_spec(s@),
{
    let n = s.unicode_len();
    let mut start: usize = 0;
    let mut negative = false;
    if n > 0 && s.get_char(0) == '-' {
        negative = true;
        start = 1;
    } else if n > 0 && s.get_char(0) == '+' {
        start = 1;
    }
    let ghost digits = s@.skip(start as int);
    assert(sign_and_digits(s@) == (negative, digits)) by {
        if start == 0 {
            assert(digits =~= s@);
        } else {
            assert(digits =~= s@.drop_first());
        }
    }
    if start == n {
        return None;
    }
    let mut acc: u64 = 0;
    let mut i: usize = start;
    while i < n
        invariant
            n == s@.len(),
            start <= i <= n,
            digits == s@.skip(start as int),
            sign_and_digits(s@) == (negative, digits),
            acc == digits_value(digits.take(i - start)),
            acc <= 2147483648,
            forall|k: int| 0 <= k < i - start ==> is_digit(#[trigger] digits[k]),
        decreases n - i,
    {
        let c = s.get_char(i);
        if !('0' <= c && c <= '9') {
            assert(!is_digit(digits[i - start]));
            return None;
        }
        let d = (c as u32 - '0' as u32) as u64;
        proof {
            let p = digits.take(i + 1 - start);
            assert(p.drop_last() =~= digits.take(i - start));
            assert(p.last() == c);
        }
        acc = acc * 10 + d;
        if acc > 2147483648 {
            proof {
                if forall|k: int| 0 <= k < digits.len() ==> is_digit(#[trigger] digits[k]) {
                    lemma_digits_value_prefix(digits, i + 1 - start);
                }
            }
            return None;
        }
        i = i + 1;
    }
    assert(digits.take(i - start) =~= digits);
    if negative {
        let v: i64 = -(acc as i64);
        Some(v as i32)
    } else if acc <= 2147483647 {
        Some(acc as i32)
    } else {
        None
    }
}

/// Whether `s` begins with `prefix`.
pub open spec fn has_prefix(s: Seq<char>, prefix: Seq<char>) -> bool {
    prefix.len() <= s.len() && s.take(prefix.len() as int) == prefix
}

/// Why a URL was refused.
#[derive(Clone, Copy, Debug, PartialEq, Eq, Structural)]
pub enum UrlError {
    /// The URL does not start with `http://` or `https://`.
    BadScheme,
    /// The port is not a number.
    BadPort,
}

/// Host, port and path of an `http://` or `https://` URL, after trimming white
/// space. The host runs up to the first `/` (the path, `/` when there is none)
/// and its first `:` separates the port; the port defaults to 443 for https
/// and 80 for http.
pub open spec fn parse_url_spec(url: Seq<char>) -> Result<(Seq<char>, i32, Seq<char>), UrlError> {
    let u = trimmed(url);
    let scheme: Option<(Seq<char>, i32)> = if has_prefix(u, "https://"@) {
        Some((u.skip("https://"@.len() as int), 443))
    } else if has_prefix(u, "http://"@) {
        Some((u.skip("http://"@.len() as int), 80))
    } else {
        None
    };
    match scheme {
        None => Err(UrlError::BadScheme),
        Some((rest, default_port)) => {
            let (host_port, path) = match first_index(rest, '/') {
                Some(i) => (rest.take(i), rest.skip(i)),
                None => (rest, "/"@),
            };
            match first_index(host_port, ':') {
                Some(i) => match parse_i32_spec(host_port.skip(i + 1)) {
                    Some(port) => Ok((host_port.take(i), port, path)),
                    None => Err(UrlError::BadPort),
                },
                None => Ok((host_port, default_port, path)),
            }
        },
    }
}

/// The message a refused URL is reported with.
pub open spec fn url_error_message(e: UrlError) -> Seq<char> {
    match e {
        UrlError::BadScheme => "URL must start with http:// or https://"@,
        UrlError::BadPort => "Invalid port number"@,
    }
}

/// Whether `s` begins with `prefix`.
fn starts_with(s: &str, prefix: &str) -> (res: bool)
    ensures
        res == has_prefix(s@, prefix@),
{
    let n = prefix.unicode_len();
    let m = s.unicode_len();
    if n > m {
        return false;
    }
    let mut i: usize = 0;
    while i < n
        invariant
            n == prefix@.len(),
            m == s@.len(),
            n <= m,
            i <= n,
            forall|j: int| 0 <= j < i ==> s@[j] == prefix@[j],
        decreases n - i,
    {
        if s.get_char(i) != prefix.get_char(i) {
            assert(s@.take(n as int)[i as int] != prefix@[i as int]);
            return false;
        }
        i = i + 1;
    }
    assert(s@.take(n as int) =~= prefix@);
    true
}

/// Position of the first occurrence of a character.
fn find_char(s: &str, c: char) -> (res: Option<usize>)
    ensures
        match res {
            Some(i) => first_index(s@, c) == Some(i as int) && i < s@.len(),
            None => first_index(s@, c) == None::<int>,
        },
{
    let n = s.unicode_len();
    let mut i: usize = 0;
    while i < n
        invariant
            n == s@.len(),
            i <= n,
            forall|j: int| 0 <= j < i ==> s@[j] != c,
        decreases n - i,
    {
        if s.get_char(i) == c {
            proof {
                lemma_first_index_at(s@, c, i as int);
            }
            return Some(i);
        }
        i = i + 1;
    }
    proof {
        lemma_first_index_none(s@, c);
    }
    None
}

/// Splits a signaling URL into host, port and path; see `parse_url_spec`.
pub fn parse_url(url_str: &str) -> (res: Result<(String, i32, String), TransportError>)
    ensures
        match parse_url_spec(url_str@) {
            Ok((host, port, path)) => res matches Ok((h, p, pa)) && h@ == host && p == port && pa@ == path,
            Err(e) => res matches Err(TransportError::Other(m)) && m@ == url_error_message(e),
        },
{
    let url = trim(url_str);
    let (rest, default_port): (&str, i32) = if starts_with(url, "https://") {
        let n = "https://".unicode_len();
        (url.substring_char(n, url.unicode_len()), 443)
    } else if starts_with(url, "http://") {
        let n = "http://".unicode_len();
        (url.substring_char(n, url.unicode_len()), 80)
    } else {
        return Err(TransportError::other("URL must start with http:// or https://"));
    };
    assert(rest@ =~= parse_url_spec_rest(url_str@));
    let rest_len = rest.unicode_len();
    let (host_port, path) = match find_char(rest, '/') {
        Some(pos) => (rest.substring_char(0, pos), rest.substring_char(pos, rest_len).to_owned()),
        None => (rest, "/".to_owned()),
    };
    let hp_len = host_port.unicode_len();
    match find_char(host_port, ':') {
        Some(pos) => {
            let port_str = host_port.substring_char(pos + 1, hp_len);
            match parse_i32(port_str) {
                Some(port) => Ok((host_port.substring_char(0, pos).to_owned(), port, path)),
                None => Err(TransportError::other("Invalid port number")),
            }
        },
        None => Ok((host_port.to_owned(), default_port, path)),
    }
}

/// The part of a URL after its scheme, for a URL with an accepted scheme.
pub open spec fn parse_url_spec_rest(url: Seq<char>) -> Seq<char> {
    let u = trimmed(url);
    if has_prefix(u, "https://"@) {
        u.skip("https://"@.len() as int)
    } else {
        u.skip("http://"@.len() as int)
    }
}

/// The address the HTTP client connects to: the host alone for the default
/// ports 80 and 443, host and port otherwise.
pub open spec fn host_with_port_spec(host: Seq<char>, port: i32, port_text: Seq<char>) -> Seq<char> {
    if port == 80 || port == 443 {
        host
    } else {
        host + ":"@ + port_text
    }
}

} // verus!
