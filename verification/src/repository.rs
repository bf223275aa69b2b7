//! What the library decides about repositories: where they come from, how
//! they are cloned, where a clone goes, and which commit a hash names.

use vstd::prelude::*;

use crate::error::{Error, ErrorView};
use crate::git::{hex_lower, is_hex_digit, is_oid_prefix, oid_error, oid_from_str, oid_hex};
use crate::text::{lemma_split_pieces_nonempty, str_eq};
use crate::ssh_url::{unreadable_ssh_url_message, url_parse_admits};
use crate::url::{git_url_parse_outcome, lemma_path_segments_rejoin, path_segments, GitUrl};

verus! {

broadcast use vstd::string::group_string_axioms;

/// Unit struct indicating that a repository is remote to the file system
pub struct Remote;

/// Unit struct indicating that a repository is local to the file system
pub struct Local;

/// How a remote repository is cloned.
#[derive(Debug, Clone, Copy, PartialEq, Eq, Structural)]
pub enum CloneProtocol {
    /// Over HTTP or HTTPS.
    Https,
    /// Over SSH.
    Ssh,
}

/// How a URL with the given scheme is cloned: HTTP and HTTPS over HTTPS, SSH
/// over SSH; any other scheme, or none, is refused with the scheme (or `None`).
pub open spec fn protocol_for_scheme(scheme: Option<Seq<char>>) -> Result<CloneProtocol, ErrorView> {
    match scheme {
        None => Err(ErrorView::UrlScheme("None"@)),
        Some(s) => if s == "http"@ || s == "https"@ {
            Ok(CloneProtocol::Https)
        } else if s == "ssh"@ {
            Ok(CloneProtocol::Ssh)
        } else {
            Err(ErrorView::UrlScheme(s))
        },
    }
}

/// The mathematical value of the outcome of choosing a protocol.
pub open spec fn protocol_result_view(r: Result<CloneProtocol, Error>) -> Result<CloneProtocol, ErrorView> {
    match r {
        Ok(p) => Ok(p),
        Err(e) => Err(e@),
    }
}

/// Where a clone of a repository at `path` goes: `dest` where one is given,
/// otherwise a directory under `/tmp` named after the last segment of the path.
pub open spec fn destination(path: Seq<char>, dest: Option<Seq<char>>) -> Seq<char> {
    match dest {
        Some(d) => d,
        None => "/tmp/"@ + path_segments(path).last(),
    }
}

/// Resolve how the repository at `url` is cloned, from the URL's scheme.
pub fn protocol_for(url: &GitUrl) -> (r: Result<CloneProtocol, Error>)
    ensures
        protocol_result_view(r) == protocol_for_scheme(url@.scheme),
{
    match url.scheme() {
        None => Err(Error::UrlScheme("None".to_string())),
        Some(s) => {
            if str_eq(s, "http") || str_eq(s, "https") {
                Ok(CloneProtocol::Https)
            } else if str_eq(s, "ssh") {
                Ok(CloneProtocol::Ssh)
            } else {
                Err(Error::UrlScheme(s.to_string()))
            }
        },
    }
}

/// Parse `url` and resolve how the repository it names is cloned.
pub fn clone_protocol(url: &str) -> (r: Result<CloneProtocol, Error>)
    ensures
        !url_parse_admits(url@) ==> (r matches Err(e) && e@ == ErrorView::GitUrlError(
            unreadable_ssh_url_message(),
        )),
        url_parse_admits(url@) ==> match git_url_parse_outcome(url@) {
            Ok((scheme, _)) => protocol_result_view(r) == protocol_for_scheme(scheme),
            Err(m) => r matches Err(e) && e@ == ErrorView::GitUrlError(m),
        },
{
    let git_url = GitUrl::parse(url)?;
    protocol_for(&git_url)
}

/// Without a destination, a clone goes directly under `/tmp`, into a directory
/// whose name holds no slash.
pub proof fn lemma_default_destination_in_tmp(path: Seq<char>)
    ensures
        exists|name: Seq<char>| !name.contains('/') && destination(path, None) == "/tmp/"@ + name,
{
    lemma_split_pieces_nonempty(crate::text::strip_leading(path, '/'), '/');
    lemma_path_segments_rejoin(path);
    let segs = path_segments(path);
    assert(!segs[segs.len() - 1].contains('/'));
}

/// A clone goes where it is told to go; without a destination, it goes to
/// `/tmp/` followed by the last segment of the URL's path: the longest end of
/// the path that holds no slash.
pub proof fn lemma_default_destination_is_last_segment(path: Seq<char>)
    ensures
        forall|d: Seq<char>| #[trigger] destination(path, Some(d)) == d,
        exists|k: int|
            0 <= k <= path.len() && destination(path, None) == "/tmp/"@ + #[trigger] path.skip(k)
                && !path.skip(k).contains('/') && (k == 0 || path[k - 1] == '/'),
{
    let stripped = crate::text::strip_leading(path, '/');
    crate::text::lemma_strip_leading_is_suffix(path, '/');
    crate::text::lemma_split_pieces_last_is_suffix(stripped, '/');
    let j = choose|j: int|
        0 <= j <= path.len() && #[trigger] path.skip(j) == stripped && (j == 0 || path[j - 1]
            == '/');
    let k = choose|k: int|
        0 <= k <= stripped.len() && #[trigger] stripped.skip(k) == crate::text::split_pieces(
            stripped,
            '/',
        ).last() && !stripped.skip(k).contains('/') && (k == 0 || stripped[k - 1] == '/');
    assert(path.skip(j + k) =~= stripped.skip(k));
    if k > 0 {
        assert(stripped[k - 1] == path[j + k - 1]);
    }
    assert(destination(path, None) == "/tmp/"@ + path.skip(j + k));
}

/// How a URL is cloned, by its scheme alone: over HTTPS exactly for `http`
/// and `https`, over SSH exactly for `ssh`; any other scheme is refused with
/// that scheme, and a missing one with `None`.
pub proof fn lemma_cloneable_schemes(scheme: Option<Seq<char>>)
    ensures
        protocol_for_scheme(scheme) == Ok::<CloneProtocol, ErrorView>(CloneProtocol::Https) <==> (
        scheme == Some("http"@) || scheme == Some("https"@)),
        protocol_for_scheme(scheme) == Ok::<CloneProtocol, ErrorView>(CloneProtocol::Ssh) <==> scheme
            == Some("ssh"@),
        forall|s: Seq<char>|
            scheme == Some(s) && s != "http"@ && s != "https"@ && s != "ssh"@
                ==> #[trigger] protocol_for_scheme(Some(s)) == Err::<CloneProtocol, ErrorView>(
                ErrorView::UrlScheme(s),
            ),
        scheme is None ==> protocol_for_scheme(scheme) == Err::<CloneProtocol, ErrorView>(
            ErrorView::UrlScheme("None"@),
        ),
{
    reveal_strlit("http");
    reveal_strlit("https");
    reveal_strlit("ssh");
    assert("ssh"@ != "http"@ && "ssh"@ != "https"@) by {
        assert("ssh"@.len() == 3);
        assert("http"@.len() == 4);
        assert("https"@.len() == 5);
    }
}

/// Resolve the given destination to a path, naming one after the repository
/// when none is given.
pub fn resolve_destination(url: &GitUrl, dest: Option<String>) -> (r: String)
    ensures
        r@ == destination(url@.path, crate::text::opt_view(dest)),
{
    match dest {
        Some(p) => p,
        None => {
            let segments = url.split_path();
            proof {
                lemma_split_pieces_nonempty(crate::text::strip_leading(url@.path, '/'), '/');
            }
            let last = segments.len() - 1;
            assert(segments@.map_values(|p: String| p@)[last as int] == segments@[last as int]@);
            "/tmp/".to_string().concat(segments[last].as_str())
        },
    }
}

/// The hash that [`parse_oid`] gives is itself a hash that it accepts and
/// gives back unchanged.
pub proof fn lemma_oid_hex_canonical(s: Seq<char>)
    requires
        is_oid_prefix(s),
    ensures
        is_oid_prefix(oid_hex(s)),
        oid_hex(oid_hex(s)) == oid_hex(s),
{
    let h = oid_hex(s);
    assert forall|i: int| 0 <= i < h.len() implies is_hex_digit(#[trigger] h[i]) && hex_lower(h[i])
        == h[i] by {
        if i < s.len() {
            assert(is_hex_digit(s[i]));
        }
    }
    assert(oid_hex(h) =~= h);
}

/// Parse a full or abbreviated commit hash into the forty-digit hash of the
/// object it names.
pub fn parse_oid(oid: &str) -> (r: Result<String, Error>)
    ensures
        r is Ok <==> is_oid_prefix(oid@),
        r matches Ok(h) ==> h@ == oid_hex(oid@),
        r matches Err(e) ==> e@ == ErrorView::Git(oid_error(oid@)),
{
    match oid_from_str(oid) {
        Ok(h) => Ok(h),
        Err(e) => Err(Error::Git(e)),
    }
}

} // verus!
