//! Git URLs: the input string together with what `git-url-parse` reads from it.

use vstd::prelude::*;

use crate::error::{Error, ErrorView};
use crate::ssh_url::{admits_url, unreadable_ssh_url_message, url_parse_admits};
use crate::text::{
    chars_of, join_pieces, lemma_split_join, lemma_split_pieces_lack_delimiter, opt_as_str,
    opt_clone, opt_str_view, opt_view, skip_char, split_from, split_pieces, strip_leading,
};

verus! {

broadcast use vstd::string::group_string_axioms;

/// What `git_url_parse::GitUrl::parse` gives for `input`: the scheme and the
/// path of the URL, or the message of the error.
pub uninterp spec fn git_url_parse_outcome(input: Seq<char>) -> Result<
    (Option<Seq<char>>, Seq<char>),
    Seq<char>,
>;

/// The mathematical value of the outcome of parsing a URL.
pub open spec fn parse_outcome_view(r: Result<(Option<String>, String), String>) -> Result<
    (Option<Seq<char>>, Seq<char>),
    Seq<char>,
> {
    match r {
        Ok((scheme, path)) => Ok((opt_view(scheme), path@)),
        Err(m) => Err(m@),
    }
}

/// Calls `git_url_parse::GitUrl::parse(s)` and reads the scheme and the path
/// of the result, or the message (`Display`) of the error.
///
/// Claimed: the outcome is a function of `s` alone, named
/// `git_url_parse_outcome`; and a URL that parses has a non-empty path, which
/// the crate checks before it returns one.
///
/// The parser drops the first character of the path of a URL whose scheme
/// names `ssh`, by a byte slice that panics when that path is empty or opens
/// with a character of more than one byte (as for `ssh://host`). Only URLs
/// that `url_parse_admits` are handed to it: those on which it returns.
#[verifier::external_body]
fn parse_git_url(s: &str) -> (r: Result<(Option<String>, String), String>)
    requires
        url_parse_admits(s@),
    ensures
        parse_outcome_view(r) == git_url_parse_outcome(s@),
        r matches Ok((_, path)) ==> path@.len() > 0,
{
    match git_url_parse::GitUrl::parse(s) {
        Ok(url) => Ok((url.scheme().map(|x| x.to_string()), url.path().to_string())),
        Err(e) => Err(e.to_string()),
    }
}

/// A parsed git URL that keeps the string it was parsed from.
#[derive(Debug, PartialEq, Eq)]
pub struct GitUrl {
    url_str: String,
    scheme: Option<String>,
    path: String,
}

/// The mathematical value of a [`GitUrl`].
pub struct GitUrlView {
    /// The string the URL was parsed from.
    pub raw: Seq<char>,
    pub scheme: Option<Seq<char>>,
    pub path: Seq<char>,
}

impl View for GitUrl {
    type V = GitUrlView;

    closed spec fn view(&self) -> GitUrlView {
        GitUrlView { raw: self.url_str@, scheme: opt_view(self.scheme), path: self.path@ }
    }
}

impl Clone for GitUrl {
    fn clone(&self) -> (r: Self)
        ensures
            r@ == self@,
    {
        GitUrl {
            url_str: self.url_str.clone(),
            scheme: opt_clone(&self.scheme),
            path: self.path.clone(),
        }
    }
}

impl Default for GitUrl {
    fn default() -> (r: Self)
        ensures
            r@ == (GitUrlView { raw: Seq::empty(), scheme: None, path: Seq::empty() }),
    {
        GitUrl { url_str: String::new(), scheme: None, path: String::new() }
    }
}

/// The pieces of a URL path: the path without its leading slashes, split at
/// each remaining slash.
pub open spec fn path_segments(path: Seq<char>) -> Seq<Seq<char>> {
    split_pieces(strip_leading(path, '/'), '/')
}

/// Joining the segments of a path with slashes gives the path back, without its
/// leading slashes; and no segment holds a slash.
pub proof fn lemma_path_segments_rejoin(path: Seq<char>)
    ensures
        join_pieces(path_segments(path), '/') == strip_leading(path, '/'),
        forall|i: int|
            0 <= i < path_segments(path).len() ==> !(#[trigger] path_segments(path)[i]).contains(
                '/',
            ),
{
    lemma_split_join(strip_leading(path, '/'), '/');
    lemma_split_pieces_lack_delimiter(strip_leading(path, '/'), '/');
}

impl GitUrl {
    /// Parse the input string into a URL || Error
    ///
    /// A URL whose scheme names `ssh` but from which the parser reads no path
    /// that opens with a character of one byte, which the parser cannot drop
    /// the first character of, is refused with `unreadable_ssh_url_message`.
    pub fn parse(s: &str) -> (r: Result<GitUrl, Error>)
        ensures
            !url_parse_admits(s@) ==> (r matches Err(e) && e@ == ErrorView::GitUrlError(
                unreadable_ssh_url_message(),
            )),
            url_parse_admits(s@) ==> match git_url_parse_outcome(s@) {
                Ok((scheme, path)) => r matches Ok(url) && url@ == (GitUrlView {
                    raw: s@,
                    scheme,
                    path,
                }),
                Err(m) => r matches Err(e) && e@ == ErrorView::GitUrlError(m),
            },
    {
        if !admits_url(s) {
            return Err(
                Error::GitUrlError(
                    "ssh url without a readable path".to_string(),
                ),
            );
        }
        let outcome = parse_git_url(s);
        Self::from_parse_outcome(s, outcome)
    }

    /// The URL that `s` parsed to, given what the parser read from it: its
    /// scheme and path, or the message of its error.
    pub fn from_parse_outcome(s: &str, outcome: Result<(Option<String>, String), String>) -> (r:
        Result<GitUrl, Error>)
        ensures
            match parse_outcome_view(outcome) {
                Ok((scheme, path)) => r matches Ok(url) && url@ == (GitUrlView {
                    raw: s@,
                    scheme,
                    path,
                }),
                Err(m) => r matches Err(e) && e@ == ErrorView::GitUrlError(m),
            },
    {
        match outcome {
            Ok((scheme, path)) => Ok(GitUrl { url_str: s.to_string(), scheme, path }),
            Err(m) => Err(Error::GitUrlError(m)),
        }
    }

    /// Return the input URL string
    pub fn raw(&self) -> (r: &str)
        ensures
            r@ == self@.raw,
    {
        self.url_str.as_str()
    }

    /// Return the URL scheme
    pub fn scheme(&self) -> (r: Option<&str>)
        ensures
            opt_str_view(r) == self@.scheme,
    {
        opt_as_str(&self.scheme)
    }

    /// Return the URL path
    pub fn path(&self) -> (r: &str)
        ensures
            r@ == self@.path,
    {
        self.path.as_str()
    }

    /// Split the path on the delimiter '/', once the leading slashes are gone
    pub fn split_path(&self) -> (r: Vec<String>)
        ensures
            r@.map_values(|p: String| p@) == path_segments(self@.path),
    {
        let path = self.path.as_str();
        let chars = chars_of(path);
        let start = skip_char(&chars, '/', 0);
        assert(chars@.skip(0) =~= chars@);
        split_from(path, &chars, start, '/')
    }
}

} // verus!
