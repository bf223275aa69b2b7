//! Errors raised by the library.

use vstd::prelude::*;

verus! {

/// An error reported by git: the numeric code and class it carries, and its message.
#[derive(Debug, PartialEq, Eq)]
pub struct GitError {
    pub code: i32,
    pub class: i32,
    pub message: String,
}

/// The mathematical value of a [`GitError`].
pub struct GitErrorView {
    pub code: i32,
    pub class: i32,
    pub message: Seq<char>,
}

impl View for GitError {
    type V = GitErrorView;

    open spec fn view(&self) -> GitErrorView {
        GitErrorView { code: self.code, class: self.class, message: self.message@ }
    }
}

impl Clone for GitError {
    fn clone(&self) -> (r: Self)
        ensures
            r@ == self@,
    {
        GitError { code: self.code, class: self.class, message: self.message.clone() }
    }
}

/// Everything that can go wrong while mining a repository.
#[derive(Debug, PartialEq, Eq)]
pub enum Error {
    /// An error reported by git.
    Git(GitError),
    /// A URL that could not be parsed as a git URL, with the parser's message.
    GitUrlError(String),
    /// A URL that parses but whose scheme cannot be cloned.
    UrlScheme(String),
    /// An error associated with a bad path, or a case that is not handled.
    PathError(String),
}

/// The mathematical value of an [`Error`].
pub enum ErrorView {
    Git(GitErrorView),
    GitUrlError(Seq<char>),
    UrlScheme(Seq<char>),
    PathError(Seq<char>),
}

impl View for Error {
    type V = ErrorView;

    open spec fn view(&self) -> ErrorView {
        match self {
            Error::Git(e) => ErrorView::Git(e@),
            Error::GitUrlError(m) => ErrorView::GitUrlError(m@),
            Error::UrlScheme(s) => ErrorView::UrlScheme(s@),
            Error::PathError(m) => ErrorView::PathError(m@),
        }
    }
}

impl Clone for Error {
    fn clone(&self) -> (r: Self)
        ensures
            r@ == self@,
    {
        match self {
            Error::Git(e) => Error::Git(e.clone()),
            Error::GitUrlError(m) => Error::GitUrlError(m.clone()),
            Error::UrlScheme(s) => Error::UrlScheme(s.clone()),
            Error::PathError(m) => Error::PathError(m.clone()),
        }
    }
}

} // verus!
