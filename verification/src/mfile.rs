//! Files touched by a commit.

use vstd::prelude::*;

use git2::Delta;

use crate::error::{Error, ErrorView};
use crate::text::{
    lemma_split_pieces_concat, lemma_split_pieces_single, opt_as_str, opt_str_view, opt_view,
    split_pieces,
};

verus! {

broadcast use vstd::string::group_string_axioms;

/// The components of the path `p` that name a file or directory, as std reads
/// a path on Unix: the pieces between slashes, where repeated slashes give
/// nothing and a `.` is normalised away.
pub open spec fn path_parts(p: Seq<char>) -> Seq<Seq<char>> {
    split_pieces(p, '/').filter(|q: Seq<char>| q.len() > 0 && q != seq!['.'])
}

/// What `std::path::Path::file_name` gives for the path `p` on Unix: its final
/// component, where that is a normal one; none where `p` has no such
/// component (as for `/`, `.` or the empty path) or ends in `..`.
pub open spec fn path_file_name(p: Seq<char>) -> Option<Seq<char>> {
    let parts = path_parts(p);
    if parts.len() == 0 || parts.last() == seq!['.', '.'] {
        None
    } else {
        Some(parts.last())
    }
}

/// Whether the path `p` starts at the root.
pub open spec fn path_has_root(p: Seq<char>) -> bool {
    p.len() > 0 && p[0] == '/'
}

/// Whether the path `p` starts with the component `.`, which std keeps at the
/// start of a path that does not start at the root.
pub open spec fn path_leads_with_cur_dir(p: Seq<char>) -> bool {
    !path_has_root(p) && p.len() > 0 && p[0] == '.' && (p.len() == 1 || p[1] == '/')
}

/// Whether `std::path::Path` considers the paths `a` and `b` equal on Unix:
/// they have the same components, that is the same root, the same leading
/// `.` and the same list of the other components.
pub open spec fn paths_equal(a: Seq<char>, b: Seq<char>) -> bool {
    &&& path_has_root(a) == path_has_root(b)
    &&& path_leads_with_cur_dir(a) == path_leads_with_cur_dir(b)
    &&& path_parts(a) == path_parts(b)
}

/// Calls `std::path::Path::new(p).file_name()` and reads the name as UTF-8,
/// which it is, as a part of `p`.
///
/// Claimed: the name is `path_file_name(p)`, the final component of `p` as
/// the documentation of `Path::file_name` and `Path::components` describes
/// it. That is std's reading on Unix, where `/` is the only separator; on
/// Windows, which also splits at `\` and reads drive prefixes, it would not
/// hold.
#[verifier::external_body]
fn file_name_of(p: &str) -> (r: Option<&str>)
    ensures
        opt_str_view(r) == path_file_name(p@),
{
    std::path::Path::new(p).file_name().and_then(|n| n.to_str())
}

/// Calls `std::path::Path::new(a) == std::path::Path::new(b)`.
///
/// Claimed: the paths are equal exactly when `paths_equal(a, b)`: std compares
/// paths by their components, read as `Path::components` documents it. That is
/// std's reading on Unix, where `/` is the only separator.
#[verifier::external_body]
fn path_eq(a: &str, b: &str) -> (r: bool)
    ensures
        r == paths_equal(a@, b@),
{
    std::path::Path::new(a) == std::path::Path::new(b)
}

/// The path that stands in a diff for the side of a file that does not exist.
pub open spec fn dev_null() -> Seq<char> {
    "/dev/null"@
}

/// The file name of a modified file: that of its new path, unless the new path
/// is missing or is `/dev/null`; then that of its old path.
pub open spec fn filename_of(old_path: Option<Seq<char>>, new_path: Option<Seq<char>>) -> Option<
    Seq<char>,
> {
    let path = match new_path {
        Some(p) => if !paths_equal(p, dev_null()) {
            Some(p)
        } else {
            old_path
        },
        None => old_path,
    };
    match path {
        Some(p) => path_file_name(p),
        None => None,
    }
}

/// The file name of a modified file is that of its new path whenever the new
/// path is there and is not `/dev/null`, whatever the old path is; otherwise it
/// is that of its old path, if any.
pub proof fn lemma_filename_follows_new_path(old_path: Option<Seq<char>>, p: Seq<char>)
    ensures
        !paths_equal(p, dev_null()) ==> filename_of(old_path, Some(p)) == path_file_name(p),
        paths_equal(p, dev_null()) ==> filename_of(old_path, Some(p)) == filename_of(
            old_path,
            None,
        ),
        filename_of(old_path, None) == match old_path {
            Some(q) => path_file_name(q),
            None => None,
        },
{
}

/// A path that ends in a normal name (not empty, without a slash, neither `.`
/// nor `..`) has that name as its file name, whether the name stands alone or
/// follows a slash.
pub proof fn lemma_file_name_is_last_name(dir: Seq<char>, name: Seq<char>)
    requires
        name.len() > 0,
        !name.contains('/'),
        name != seq!['.'],
        name != seq!['.', '.'],
    ensures
        path_file_name(name) == Some(name),
        path_file_name(dir.push('/') + name) == Some(name),
{
    reveal(Seq::filter);
    let keep = |q: Seq<char>| q.len() > 0 && q != seq!['.'];
    lemma_split_pieces_single(name, '/');
    assert(seq![name].drop_last() =~= Seq::<Seq<char>>::empty());
    assert(path_parts(name) == seq![name].filter(keep));
    assert(seq![name].filter(keep) == Seq::<Seq<char>>::empty().push(name));
    lemma_split_pieces_concat(dir, name, '/');
    let front = split_pieces(dir, '/');
    let all = front + seq![name];
    assert(all.drop_last() =~= front);
    assert(all.last() == name);
    assert(path_parts(dir.push('/') + name) == all.filter(keep));
    assert(all.filter(keep) == front.filter(keep).push(name));
}

/// One entry of a diff: the paths of the file before and after, and the kind of change.
pub struct FileDelta {
    pub old_path: Option<String>,
    pub new_path: Option<String>,
    pub status: Delta,
}

/// What git reports about the lines of one file's patch.
#[derive(Debug, Clone, Copy, PartialEq, Eq)]
pub struct LineStats {
    pub context: usize,
    pub additions: usize,
    pub deletions: usize,
}

/// A file that was touched in a commit: its entry in the diff (absent where
/// the diff has none at its index), and its patch's line statistics (absent
/// where the file is unchanged), or the error that computing them gave.
pub struct ModifiedFile {
    delta: Option<FileDelta>,
    patch: Result<Option<LineStats>, Error>,
}

/// The mathematical value of a [`ModifiedFile`].
pub struct ModifiedFileView {
    /// The old path, the new path and the kind of change, where the diff has the entry.
    pub delta: Option<(Option<Seq<char>>, Option<Seq<char>>, Delta)>,
    pub patch: Result<Option<LineStats>, ErrorView>,
}

impl View for ModifiedFile {
    type V = ModifiedFileView;

    closed spec fn view(&self) -> ModifiedFileView {
        ModifiedFileView {
            delta: match self.delta {
                Some(d) => Some((opt_view(d.old_path), opt_view(d.new_path), d.status)),
                None => None,
            },
            patch: match self.patch {
                Ok(p) => Ok(p),
                Err(e) => Err(e@),
            },
        }
    }
}

/// The old path of a diff entry, where there is an entry.
pub open spec fn old_path_of(d: Option<(Option<Seq<char>>, Option<Seq<char>>, Delta)>) -> Option<
    Seq<char>,
> {
    match d {
        Some((old, _, _)) => old,
        None => None,
    }
}

/// The new path of a diff entry, where there is an entry.
pub open spec fn new_path_of(d: Option<(Option<Seq<char>>, Option<Seq<char>>, Delta)>) -> Option<
    Seq<char>,
> {
    match d {
        Some((_, new, _)) => new,
        None => None,
    }
}

impl ModifiedFile {
    /// Instantiate the modified file from its entry in a diff and the line
    /// statistics of its patch.
    pub fn new(delta: Option<FileDelta>, patch: Result<Option<LineStats>, Error>) -> (r:
        ModifiedFile)
        ensures
            r@.delta == match delta {
                Some(d) => Some((opt_view(d.old_path), opt_view(d.new_path), d.status)),
                None => None,
            },
            r@.patch == match patch {
                Ok(p) => Ok(p),
                Err(e) => Err(e@),
            },
    {
        ModifiedFile { delta, patch }
    }

    /// Return the path of the old file in the diff
    pub fn old_path(&self) -> (r: Option<&str>)
        ensures
            opt_str_view(r) == old_path_of(self@.delta),
    {
        match &self.delta {
            Some(d) => opt_as_str(&d.old_path),
            None => None,
        }
    }

    /// Return the path of the new file in the diff
    pub fn new_path(&self) -> (r: Option<&str>)
        ensures
            opt_str_view(r) == new_path_of(self@.delta),
    {
        match &self.delta {
            Some(d) => opt_as_str(&d.new_path),
            None => None,
        }
    }

    /// Return the current filename of the modified file in the commit
    ///
    /// Returns None if neither the old nor the new filename is valid
    pub fn filename(&self) -> (r: Option<&str>)
        ensures
            opt_str_view(r) == filename_of(old_path_of(self@.delta), new_path_of(self@.delta)),
    {
        let path = match self.new_path() {
            Some(p) => {
                if !path_eq(p, "/dev/null") {
                    p
                } else {
                    match self.old_path() {
                        Some(q) => q,
                        None => return None,
                    }
                }
            },
            None => match self.old_path() {
                Some(q) => q,
                None => return None,
            },
        };
        file_name_of(path)
    }

    /// Return the file status of the given patch
    pub fn status(&self) -> (r: Option<Delta>)
        ensures
            r == match self@.delta {
                Some((_, _, s)) => Some(s),
                None => None::<Delta>,
            },
    {
        match &self.delta {
            Some(d) => Some(d.status),
            None => None,
        }
    }

    /// The number of lines added in this modified file
    pub fn insertions(&self) -> (r: Result<usize, Error>)
        ensures
            match self@.patch {
                Ok(Some(p)) => r == Ok::<usize, Error>(p.additions),
                Ok(None) => r == Ok::<usize, Error>(0),
                Err(e) => r matches Err(f) && f@ == e,
            },
    {
        match &self.patch {
            Ok(Some(p)) => Ok(p.additions),
            Ok(None) => Ok(0),
            Err(e) => Err(e.clone()),
        }
    }

    /// The number of lines removed in this modified file
    pub fn deletions(&self) -> (r: Result<usize, Error>)
        ensures
            match self@.patch {
                Ok(Some(p)) => r == Ok::<usize, Error>(p.deletions),
                Ok(None) => r == Ok::<usize, Error>(0),
                Err(e) => r matches Err(f) && f@ == e,
            },
    {
        match &self.patch {
            Ok(Some(p)) => Ok(p.deletions),
            Ok(None) => Ok(0),
            Err(e) => Err(e.clone()),
        }
    }
}

} // verus!
