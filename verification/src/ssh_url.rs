//! Which URLs `git-url-parse` can read without failing: the parser drops the
//! first character of the path of a URL whose scheme names `ssh` with a byte
//! slice, which panics where that path is empty or opens with a character of
//! more than one byte. This module says, character by character, where the
//! parser's path starts for such a URL, so that the library hands the parser
//! only the URLs on which it returns.

use vstd::prelude::*;

use crate::text::{chars_of, substring};

verus! {

/// Whether std's `char::is_alphanumeric` holds of `c`.
pub uninterp spec fn unicode_alphanumeric(c: char) -> bool;

/// Calls `c.is_alphanumeric()`.
///
/// Claimed: the outcome is a function of `c` alone, named
/// `unicode_alphanumeric`; and on an ASCII character it holds exactly of the
/// letters and digits (the ASCII characters that are alphabetic or numeric).
#[verifier::external_body]
fn is_alphanumeric(c: char) -> (r: bool)
    ensures
        r == unicode_alphanumeric(c),
        (c as u32) < 0x80 ==> (r == is_ascii_alnum(c)),
{
    c.is_alphanumeric()
}

/// Whether `c` is an ASCII letter.
pub open spec fn is_ascii_alpha(c: char) -> bool {
    ('a' <= c && c <= 'z') || ('A' <= c && c <= 'Z')
}

/// Whether `c` is an ASCII digit.
pub open spec fn is_ascii_digit(c: char) -> bool {
    '0' <= c && c <= '9'
}

/// Whether `c` is an ASCII letter or digit.
pub open spec fn is_ascii_alnum(c: char) -> bool {
    is_ascii_alpha(c) || is_ascii_digit(c)
}

/// Whether `c` is unreserved in a URI, as the parser reads it: alphanumeric,
/// or one of `-` `.` `_` `~`.
pub open spec fn is_unreserved(c: char) -> bool {
    unicode_alphanumeric(c) || c == '-' || c == '.' || c == '_' || c == '~'
}

/// Whether `c` is a sub-delimiter in a URI, as the parser reads it (it adds
/// the backslash of Windows paths).
pub open spec fn is_sub_delim(c: char) -> bool {
    ||| c == '!'
    ||| c == '$'
    ||| c == '&'
    ||| c == '\''
    ||| c == '('
    ||| c == ')'
    ||| c == '*'
    ||| c == '+'
    ||| c == ','
    ||| c == ';'
    ||| c == '='
    ||| c == '\\'
}

/// Whether `c` may stand in a registered name (a host, a user, a port).
pub open spec fn is_reg_name(c: char) -> bool {
    is_unreserved(c) || is_sub_delim(c)
}

/// Whether `c` is an ASCII character that may stand in a path segment.
pub open spec fn is_ascii_pchar(c: char) -> bool {
    ||| is_ascii_alnum(c)
    ||| c == '-'
    ||| c == '.'
    ||| c == '_'
    ||| c == '~'
    ||| is_sub_delim(c)
    ||| c == ':'
    ||| c == '@'
}

/// Which characters make up a run inside a URL.
#[derive(Clone, Copy)]
pub enum UrlCharClass {
    /// The characters of a scheme: ASCII letters and digits, `+`, `-` and `.`.
    Scheme,
    /// The characters of a user and password: those of a registered name, and `:`.
    Userinfo,
    /// The characters of a registered name but the backslash.
    RegNameNoBackslash,
    /// The characters of a registered name.
    RegName,
}

/// Whether `c` belongs to the class `k`.
pub open spec fn in_class(c: char, k: UrlCharClass) -> bool {
    match k {
        UrlCharClass::Scheme => is_ascii_alnum(c) || c == '+' || c == '-' || c == '.',
        UrlCharClass::Userinfo => is_reg_name(c) || c == ':',
        UrlCharClass::RegNameNoBackslash => is_reg_name(c) && c != '\\',
        UrlCharClass::RegName => is_reg_name(c),
    }
}

/// The end of the longest run of characters of class `k` that starts at `i`.
pub open spec fn run_end(s: Seq<char>, i: int, k: UrlCharClass) -> int
    decreases s.len() - i,
{
    if 0 <= i < s.len() && in_class(s[i], k) {
        run_end(s, i + 1, k)
    } else {
        i
    }
}

/// Whether `ssh` occurs in `s` at `j`.
pub open spec fn ssh_at(s: Seq<char>, j: int) -> bool {
    0 <= j && j + 3 <= s.len() && s[j] == 's' && s[j + 1] == 's' && s[j + 2] == 'h'
}

/// Whether `ssh` occurs anywhere in `s`.
pub open spec fn names_ssh(s: Seq<char>) -> bool {
    exists|j: int| ssh_at(s, j)
}

/// The length of the scheme that `s` opens with, where it opens with one: an
/// ASCII letter followed by scheme characters, then `://`. (A URL that opens
/// with `git:` has the scheme `git`, which this also gives or leaves out.)
pub open spec fn explicit_scheme_len(s: Seq<char>) -> Option<int> {
    let k = run_end(s, 0, UrlCharClass::Scheme);
    if 0 < s.len() && is_ascii_alpha(s[0]) && k + 3 <= s.len() && s[k] == ':' && s[k + 1] == '/'
        && s[k + 2] == '/' {
        Some(k)
    } else {
        None
    }
}

/// What follows the `://` of `s`, where `s` opens with a scheme that names
/// `ssh`.
pub open spec fn ssh_scheme_rest(s: Seq<char>) -> Option<Seq<char>> {
    match explicit_scheme_len(s) {
        Some(k) => if names_ssh(s.take(k)) {
            Some(s.skip(k + 3))
        } else {
            None
        },
        None => None,
    }
}

/// Where the authority of `r` starts: after `user@` where `r` opens with a
/// non-empty user (and password) followed by `@`, else at the start.
pub open spec fn authority_start(r: Seq<char>) -> int {
    let u = run_end(r, 0, UrlCharClass::Userinfo);
    if 0 < u < r.len() && r[u] == '@' {
        u + 1
    } else {
        0
    }
}

/// Whether the user information `ui`, which holds a `:`, splits into a
/// non-empty user, `:` and a non-empty password.
pub open spec fn userinfo_splits(ui: Seq<char>) -> bool {
    let a = run_end(ui, 0, UrlCharClass::RegName);
    0 < a < ui.len() && ui[a] == ':' && run_end(ui, a + 1, UrlCharClass::RegName) > a + 1
}

/// Whether the parser gives up on the user information that `r` opens with:
/// one that holds a `:` but does not split into a user and a password.
pub open spec fn userinfo_refused(r: Seq<char>) -> bool {
    let u = run_end(r, 0, UrlCharClass::Userinfo);
    &&& 0 < u < r.len()
    &&& r[u] == '@'
    &&& r.take(u).contains(':')
    &&& !userinfo_splits(r.take(u))
}

/// The value of the decimal digits `d`.
pub open spec fn digits_value(d: Seq<char>) -> nat
    decreases d.len(),
{
    if d.len() == 0 {
        0
    } else {
        10 * digits_value(d.drop_last()) + ((d.last() as u32) - ('0' as u32)) as nat
    }
}

/// `p` without the `+` it opens with, if any.
pub open spec fn sign_stripped(p: Seq<char>) -> Seq<char> {
    if p.len() > 0 && p[0] == '+' {
        p.skip(1)
    } else {
        p
    }
}

/// Whether every character of `d` is an ASCII digit.
pub open spec fn all_ascii_digits(d: Seq<char>) -> bool {
    forall|i: int| 0 <= i < d.len() ==> is_ascii_digit(#[trigger] d[i])
}

/// Whether std reads `p` as a `u16`: an optional `+` followed by at least one
/// decimal digit, of a value of at most 65535.
pub open spec fn u16_parses(p: Seq<char>) -> bool {
    &&& sign_stripped(p).len() > 0
    &&& all_ascii_digits(sign_stripped(p))
    &&& digits_value(sign_stripped(p)) <= 65535
}

/// Where the parser starts the path of `r`, given that the authority starts
/// at `q`: at `q` where what follows looks like a Windows path (`C:\`);
/// otherwise after the host (a run of registered-name characters that opens
/// with an alphanumeric one), and after a port (`:` and digits that read as a
/// `u16`) where one follows.
pub open spec fn path_start(r: Seq<char>, q: int) -> int {
    let w = run_end(r, q, UrlCharClass::RegNameNoBackslash);
    if w + 1 < r.len() && r[w] == ':' && r[w + 1] == '\\' {
        q
    } else {
        let h = run_end(r, q, UrlCharClass::RegName);
        let p0 = if h > q && unicode_alphanumeric(r[q]) {
            h
        } else {
            q
        };
        if p0 < r.len() && r[p0] == ':' {
            let e = run_end(r, p0 + 1, UrlCharClass::RegName);
            if u16_parses(r.subrange(p0 + 1, e)) {
                e
            } else {
                p0
            }
        } else {
            p0
        }
    }
}

/// Whether the parser reads a path from `r`, what follows the `://` of an
/// `ssh` URL, that opens with a character of one byte: the user information
/// does not stop it, and the path starts at `/` or at an ASCII character of a
/// path segment.
pub open spec fn ssh_rest_parses(r: Seq<char>) -> bool {
    let t = path_start(r, authority_start(r));
    &&& !userinfo_refused(r)
    &&& t < r.len()
    &&& (r[t] == '/' || is_ascii_pchar(r[t]))
}

/// The URLs that the parser returns on: those with a NUL (which it refuses
/// before it parses), those whose scheme does not name `ssh`, and those whose
/// remainder after `://` it reads a path from that opens with a character of
/// one byte.
pub open spec fn url_parse_admits(s: Seq<char>) -> bool {
    ||| s.contains('\0')
    ||| match ssh_scheme_rest(s) {
        Some(r) => ssh_rest_parses(r),
        None => true,
    }
}

/// The message with which a URL that the parser cannot read a path from is
/// refused.
pub open spec fn unreadable_ssh_url_message() -> Seq<char> {
    "ssh url without a readable path"@
}

/// Whether `c` is an ASCII letter.
fn ascii_alpha(c: char) -> (r: bool)
    ensures
        r == is_ascii_alpha(c),
{
    ('a' <= c && c <= 'z') || ('A' <= c && c <= 'Z')
}

/// Whether `c` is an ASCII letter or digit.
fn ascii_alnum(c: char) -> (r: bool)
    ensures
        r == is_ascii_alnum(c),
{
    ascii_alpha(c) || ('0' <= c && c <= '9')
}

/// Whether `c` is a sub-delimiter.
fn sub_delim(c: char) -> (r: bool)
    ensures
        r == is_sub_delim(c),
{
    c == '!' || c == '$' || c == '&' || c == '\'' || c == '(' || c == ')' || c == '*' || c == '+'
        || c == ',' || c == ';' || c == '=' || c == '\\'
}

/// Whether `c` may stand in a registered name.
fn reg_name(c: char) -> (r: bool)
    ensures
        r == is_reg_name(c),
{
    is_alphanumeric(c) || c == '-' || c == '.' || c == '_' || c == '~' || sub_delim(c)
}

/// Whether `c` is an ASCII character that may stand in a path segment.
fn ascii_pchar(c: char) -> (r: bool)
    ensures
        r == is_ascii_pchar(c),
{
    ascii_alnum(c) || c == '-' || c == '.' || c == '_' || c == '~' || sub_delim(c) || c == ':'
        || c == '@'
}

/// Whether `c` belongs to the class `k`.
fn char_in_class(c: char, k: UrlCharClass) -> (r: bool)
    ensures
        r == in_class(c, k),
{
    match k {
        UrlCharClass::Scheme => ascii_alnum(c) || c == '+' || c == '-' || c == '.',
        UrlCharClass::Userinfo => reg_name(c) || c == ':',
        UrlCharClass::RegNameNoBackslash => reg_name(c) && c != '\\',
        UrlCharClass::RegName => reg_name(c),
    }
}

/// The end of the longest run of characters of class `k` in `v` from `i`.
fn run_end_from(v: &Vec<char>, i: usize, k: UrlCharClass) -> (r: usize)
    requires
        i <= v.len(),
    ensures
        i <= r <= v.len(),
        r == run_end(v@, i as int, k),
{
    let mut j = i;
    while j < v.len() && char_in_class(v[j], k)
        invariant
            i <= j <= v.len(),
            run_end(v@, i as int, k) == run_end(v@, j as int, k),
        decreases v.len() - j,
    {
        j = j + 1;
    }
    j
}

/// Whether `c` occurs in `v`.
fn holds_char(v: &Vec<char>, c: char) -> (r: bool)
    ensures
        r == v@.contains(c),
{
    let mut j: usize = 0;
    while j < v.len()
        invariant
            j <= v.len(),
            forall|m: int| 0 <= m < j ==> v@[m] != c,
        decreases v.len() - j,
    {
        if v[j] == c {
            assert(v@[j as int] == c);
            return true;
        }
        j = j + 1;
    }
    false
}

/// The characters of `v` from `a` up to `b`.
fn slice_of(v: &Vec<char>, a: usize, b: usize) -> (r: Vec<char>)
    requires
        a <= b <= v.len(),
    ensures
        r@ == v@.subrange(a as int, b as int),
{
    let mut r: Vec<char> = Vec::new();
    let mut j = a;
    while j < b
        invariant
            a <= j <= b <= v.len(),
            r@ == v@.subrange(a as int, j as int),
        decreases b - j,
    {
        r.push(v[j]);
        j = j + 1;
    }
    r
}

/// Whether `ssh` occurs among the first `k` characters of `v`.
fn holds_ssh(v: &Vec<char>, k: usize) -> (r: bool)
    requires
        k <= v.len(),
    ensures
        r == names_ssh(v@.take(k as int)),
{
    let ghost t = v@.take(k as int);
    let mut j: usize = 0;
    while j < k && k - j >= 3
        invariant
            k <= v.len(),
            t == v@.take(k as int),
            forall|m: int| 0 <= m < j ==> !#[trigger] ssh_at(t, m),
        decreases k - j,
    {
        if v[j] == 's' && v[j + 1] == 's' && v[j + 2] == 'h' {
            assert(ssh_at(t, j as int));
            return true;
        }
        j = j + 1;
    }
    assert forall|m: int| !#[trigger] ssh_at(t, m) by {
        if 0 <= m < j {
        }
    }
    false
}

/// Where what follows the `://` of `v` starts, where `v` opens with a scheme
/// that names `ssh`.
fn ssh_rest_start(v: &Vec<char>) -> (r: Option<usize>)
    ensures
        match ssh_scheme_rest(v@) {
            Some(rest) => r matches Some(i) && i <= v.len() && rest == v@.skip(i as int),
            None => r is None,
        },
{
    if v.len() == 0 || !ascii_alpha(v[0]) {
        return None;
    }
    let k = run_end_from(v, 0, UrlCharClass::Scheme);
    if v.len() - k >= 3 && v[k] == ':' && v[k + 1] == '/' && v[k + 2] == '/' && holds_ssh(v, k) {
        Some(k + 3)
    } else {
        None
    }
}

/// Whether the user information `ui` splits into a user and a password.
fn userinfo_splits_at(ui: &Vec<char>) -> (r: bool)
    ensures
        r == userinfo_splits(ui@),
{
    let a = run_end_from(ui, 0, UrlCharClass::RegName);
    if !(0 < a && a < ui.len() && ui[a] == ':') {
        return false;
    }
    let e = run_end_from(ui, a + 1, UrlCharClass::RegName);
    e > a + 1
}

/// Whether std reads the characters of `v` from `a` up to `b` as a `u16`.
fn reads_as_u16(v: &Vec<char>, a: usize, b: usize) -> (r: bool)
    requires
        a <= b <= v.len(),
    ensures
        r == u16_parses(v@.subrange(a as int, b as int)),
{
    let ghost p = v@.subrange(a as int, b as int);
    let start = if a < b && v[a] == '+' {
        a + 1
    } else {
        a
    };
    let ghost d = v@.subrange(start as int, b as int);
    assert(d =~= sign_stripped(p));
    if start >= b {
        return false;
    }
    let mut acc: u32 = 0;
    let mut big = false;
    let mut j = start;
    assert(v@.subrange(start as int, start as int) =~= Seq::<char>::empty());
    while j < b
        invariant
            a <= start <= j <= b <= v.len(),
            d == v@.subrange(start as int, b as int),
            p == v@.subrange(a as int, b as int),
            d == sign_stripped(p),
            forall|m: int| start <= m < j ==> is_ascii_digit(#[trigger] v@[m]),
            !big ==> acc as nat == digits_value(v@.subrange(start as int, j as int)) && acc
                <= 65535,
            big ==> digits_value(v@.subrange(start as int, j as int)) > 65535,
        decreases b - j,
    {
        let c = v[j];
        if !('0' <= c && c <= '9') {
            assert(d[j - start] == c);
            assert(!all_ascii_digits(d));
            return false;
        }
        assert(v@.subrange(start as int, j + 1).drop_last() =~= v@.subrange(start as int, j as int));
        assert(v@.subrange(start as int, j + 1).last() == c);
        let digit = (c as u32) - ('0' as u32);
        if !big {
            if acc > 6553 || acc * 10 + digit > 65535 {
                big = true;
            } else {
                acc = acc * 10 + digit;
            }
        }
        j = j + 1;
    }
    assert(v@.subrange(start as int, b as int) == d);
    assert forall|i: int| 0 <= i < d.len() implies is_ascii_digit(#[trigger] d[i]) by {
        assert(d[i] == v@[start + i]);
    }
    !big
}

/// Where the parser starts the path of `r`, given that the authority starts
/// at `q`.
fn path_start_in(r: &Vec<char>, q: usize) -> (t: usize)
    requires
        q <= r.len(),
    ensures
        t == path_start(r@, q as int),
        t <= r.len(),
{
    let w = run_end_from(r, q, UrlCharClass::RegNameNoBackslash);
    if r.len() - w >= 2 && r[w] == ':' && r[w + 1] == '\\' {
        return q;
    }
    let h = run_end_from(r, q, UrlCharClass::RegName);
    let p0 = if h > q && is_alphanumeric(r[q]) {
        h
    } else {
        q
    };
    if p0 < r.len() && r[p0] == ':' {
        let e = run_end_from(r, p0 + 1, UrlCharClass::RegName);
        if reads_as_u16(r, p0 + 1, e) {
            e
        } else {
            p0
        }
    } else {
        p0
    }
}

/// Whether the parser reads a path that opens with a character of one byte
/// from `r`, what follows the `://` of an `ssh` URL.
fn ssh_rest_reads(r: &Vec<char>) -> (b: bool)
    ensures
        b == ssh_rest_parses(r@),
{
    let u = run_end_from(r, 0, UrlCharClass::Userinfo);
    let at = 0 < u && u < r.len() && r[u] == '@';
    if at {
        let ui = slice_of(r, 0, u);
        assert(ui@ =~= r@.take(u as int));
        if holds_char(&ui, ':') && !userinfo_splits_at(&ui) {
            return false;
        }
    }
    let q = if at {
        u + 1
    } else {
        0
    };
    let t = path_start_in(r, q);
    t < r.len() && (r[t] == '/' || ascii_pchar(r[t]))
}

/// Whether the parser returns on `s`.
pub fn admits_url(s: &str) -> (b: bool)
    ensures
        b == url_parse_admits(s@),
{
    let v = chars_of(s);
    if holds_char(&v, '\0') {
        return true;
    }
    match ssh_rest_start(&v) {
        None => true,
        Some(i) => {
            let rest = chars_of(substring(s, i, v.len()).as_str());
            assert(rest@ =~= v@.skip(i as int));
            ssh_rest_reads(&rest)
        },
    }
}

} // verus!
