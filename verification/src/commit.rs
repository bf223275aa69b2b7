//! Commits of the repository being inspected.

use vstd::prelude::*;

use crate::actor::{
    actor_result_view, actor_string, lemma_actor_string_round_trip, parses_actor, Actor, ActorView,
    MinedActor, UtcTime,
};
use crate::coauthor::{co_author_entries, iter_co_authors, lemma_single_trailer, trailer_prefix};
use crate::error::{Error, ErrorView};
use crate::git::{signature_accepts, trim_crud};
use crate::text::{is_whitespace, opt_as_str, opt_str_view, opt_view, str_eq};

verus! {

broadcast use vstd::string::group_string_axioms;

/// A single git commit of the repository being inspected: its hash, message,
/// author, committer and the hashes of its parents.
#[derive(Debug)]
pub struct Commit {
    hash: String,
    message: Option<String>,
    author: Actor,
    committer: Actor,
    parents: Vec<String>,
}

/// The mathematical value of a [`Commit`].
pub struct CommitView {
    pub hash: Seq<char>,
    pub message: Option<Seq<char>>,
    pub author: ActorView,
    pub committer: ActorView,
    pub parents: Seq<Seq<char>>,
}

/// The characters of each string in `v`.
pub open spec fn strings_view(v: Seq<String>) -> Seq<Seq<char>> {
    v.map_values(|s: String| s@)
}

impl View for Commit {
    type V = CommitView;

    closed spec fn view(&self) -> CommitView {
        CommitView {
            hash: self.hash@,
            message: opt_view(self.message),
            author: self.author@,
            committer: self.committer@,
            parents: strings_view(self.parents@),
        }
    }
}

/// Copies a vector of strings.
fn clone_strings(v: &Vec<String>) -> (r: Vec<String>)
    ensures
        strings_view(r@) == strings_view(v@),
{
    let mut r: Vec<String> = Vec::new();
    let mut i: usize = 0;
    while i < v.len()
        invariant
            i <= v.len(),
            r.len() == i,
            forall|j: int| 0 <= j < i ==> (#[trigger] r@[j])@ == v@[j]@,
        decreases v.len() - i,
    {
        r.push(v[i].clone());
        i = i + 1;
    }
    assert(strings_view(r@) =~= strings_view(v@));
    r
}

/// The message of the error for a commit whose diff is not handled: one with
/// more than one parent.
pub open spec fn merge_diff_message() -> Seq<char> {
    "Placeholder error"@
}

/// Which tree a commit with `parent_count` parents is diffed against: none
/// (the empty tree) for a root commit, the first parent's for a commit with
/// one parent; a merge commit's diff is not handled.
pub open spec fn parent_tree_for(parent_count: nat) -> Result<Option<usize>, ErrorView> {
    if parent_count == 0 {
        Ok(None)
    } else if parent_count == 1 {
        Ok(Some(0))
    } else {
        Err(ErrorView::PathError(merge_diff_message()))
    }
}

/// A branch as git lists it for the commit being inspected: whether it points
/// at a commit, whether that target is the inspected commit itself, git's
/// answer to "is the target a descendant of the inspected commit" (`None`
/// where the query failed), and the branch's name (absent if it is not UTF-8).
pub struct BranchCandidate {
    pub has_target: bool,
    pub target_is_commit: bool,
    pub descendant_of_commit: Option<bool>,
    pub name: Result<Option<String>, Error>,
}

/// The mathematical value of a [`BranchCandidate`].
pub struct BranchCandidateView {
    pub has_target: bool,
    pub target_is_commit: bool,
    pub descendant_of_commit: Option<bool>,
    pub name: Result<Option<Seq<char>>, ErrorView>,
}

/// The mathematical value of a [`BranchCandidate`] or of the error that listing it gave.
pub open spec fn candidate_view(c: Result<BranchCandidate, Error>) -> Result<
    BranchCandidateView,
    ErrorView,
> {
    match c {
        Ok(b) => Ok(
            BranchCandidateView {
                has_target: b.has_target,
                target_is_commit: b.target_is_commit,
                descendant_of_commit: b.descendant_of_commit,
                name: match b.name {
                    Ok(n) => Ok(opt_view(n)),
                    Err(e) => Err(e@),
                },
            },
        ),
        Err(e) => Err(e@),
    }
}

/// Whether the branch contains the inspected commit: it has a target, and that
/// target is the commit or git answered that it descends from the commit. A
/// branch for which the query failed does not count.
pub open spec fn contains_commit(b: BranchCandidateView) -> bool {
    b.has_target && (b.target_is_commit || b.descendant_of_commit == Some(true))
}

/// What a listed branch contributes to the commit's branches: the error where
/// listing it failed; nothing where it does not contain the commit or where
/// its name is not UTF-8; its name otherwise, or the error that reading the
/// name gave.
pub open spec fn branch_entry(c: Result<BranchCandidateView, ErrorView>) -> Option<
    Result<Seq<char>, ErrorView>,
> {
    match c {
        Err(e) => Some(Err(e)),
        Ok(b) => if !contains_commit(b) {
            None
        } else {
            match b.name {
                Ok(Some(n)) => Some(Ok(n)),
                Ok(None) => None,
                Err(e) => Some(Err(e)),
            }
        },
    }
}

/// The branch names (or errors) that the listed candidates give, in order.
pub open spec fn branch_entries(cs: Seq<Result<BranchCandidateView, ErrorView>>) -> Seq<Result<Seq<char>, ErrorView>>
    decreases cs.len(),
{
    if cs.len() == 0 {
        Seq::empty()
    } else {
        let before = branch_entries(cs.drop_last());
        match branch_entry(cs.last()) {
            Some(e) => before.push(e),
            None => before,
        }
    }
}

/// The mathematical value of a branch name or of the error in its place.
pub open spec fn name_result_view(r: Result<String, Error>) -> Result<Seq<char>, ErrorView> {
    match r {
        Ok(s) => Ok(s@),
        Err(e) => Err(e@),
    }
}

/// Whether one of `branches` is the branch `main` or `master`.
pub open spec fn names_main(branches: Seq<Result<Seq<char>, ErrorView>>) -> bool {
    exists|i: int|
        0 <= i < branches.len() && (branches[i] == Ok::<Seq<char>, ErrorView>("main"@)
            || branches[i] == Ok::<Seq<char>, ErrorView>("master"@))
}

/// The names that [`Commit::branch_iterator`] gives for two listings one after
/// the other (the local branches and then the remote ones, say) are those it
/// gives for the first followed by those it gives for the second.
pub proof fn lemma_branch_entries_concat(
    a: Seq<Result<BranchCandidateView, ErrorView>>,
    b: Seq<Result<BranchCandidateView, ErrorView>>,
)
    ensures
        branch_entries(a + b) == branch_entries(a) + branch_entries(b),
    decreases b.len(),
{
    if b.len() == 0 {
        assert(a + b =~= a);
        assert(branch_entries(a) + branch_entries(b) =~= branch_entries(a));
    } else {
        let init = b.drop_last();
        lemma_branch_entries_concat(a, init);
        assert((a + b).drop_last() =~= a + init);
        assert((a + b).last() == b.last());
        match branch_entry(b.last()) {
            Some(e) => {
                assert(branch_entries(a) + branch_entries(init).push(e) =~= (branch_entries(a)
                    + branch_entries(init)).push(e));
            },
            None => {},
        }
    }
}

/// Whether the listed branch is `main` or `master` and contains the commit.
pub open spec fn is_main_candidate(c: Result<BranchCandidateView, ErrorView>) -> bool {
    match c {
        Ok(b) => contains_commit(b) && (b.name == Ok::<Option<Seq<char>>, ErrorView>(Some("main"@))
            || b.name == Ok::<Option<Seq<char>>, ErrorView>(Some("master"@))),
        Err(_) => false,
    }
}

/// Whether one of the listed branches is `main` or `master` and contains the
/// commit.
pub open spec fn main_contains_commit(cs: Seq<Result<BranchCandidateView, ErrorView>>) -> bool {
    exists|i: int| 0 <= i < cs.len() && is_main_candidate(#[trigger] cs[i])
}

/// A commit is in main, by the names that [`Commit::branch_iterator`] gives
/// for a listing of branches, exactly when one of the listed branches is
/// `main` or `master` and contains the commit.
pub proof fn lemma_in_main_exactly_when_main_contains(
    cs: Seq<Result<BranchCandidateView, ErrorView>>,
)
    ensures
        names_main(branch_entries(cs)) == main_contains_commit(cs),
    decreases cs.len(),
{
    if cs.len() > 0 {
        let init = cs.drop_last();
        lemma_in_main_exactly_when_main_contains(init);
        let before = branch_entries(init);
        let all = branch_entries(cs);
        let last = cs.last();
        let main = Ok::<Seq<char>, ErrorView>("main"@);
        let master = Ok::<Seq<char>, ErrorView>("master"@);
        assert(is_main_candidate(last) <==> (branch_entry(last) == Some(main) || branch_entry(last)
            == Some(master)));
        if names_main(all) {
            let i = choose|i: int| 0 <= i < all.len() && (all[i] == main || all[i] == master);
            if i < before.len() {
                assert(all[i] == before[i]);
                let j = choose|j: int| 0 <= j < init.len() && is_main_candidate(#[trigger] init[j]);
                assert(cs[j] == init[j]);
            } else {
                assert(is_main_candidate(cs[cs.len() - 1]));
            }
        }
        if main_contains_commit(cs) {
            let i = choose|i: int| 0 <= i < cs.len() && is_main_candidate(#[trigger] cs[i]);
            if i < init.len() {
                assert(is_main_candidate(init[i]));
                let j = choose|j: int|
                    0 <= j < before.len() && (before[j] == main || before[j] == master);
                assert(all[j] == before[j]);
            } else {
                assert(all[all.len() - 1] == main || all[all.len() - 1] == master);
            }
        }
    }
}

/// Whether the listed branch contains the commit and is named `n`.
pub open spec fn is_containing_branch_named(c: Result<BranchCandidateView, ErrorView>, n: Seq<
    char,
>) -> bool {
    match c {
        Ok(b) => contains_commit(b) && b.name == Ok::<Option<Seq<char>>, ErrorView>(Some(n)),
        Err(_) => false,
    }
}

/// The names that [`Commit::branch_iterator`] gives for a listing of branches
/// are exactly those of the listed branches that contain the commit.
pub proof fn lemma_listed_names_are_containing_branches(
    cs: Seq<Result<BranchCandidateView, ErrorView>>,
    n: Seq<char>,
)
    ensures
        branch_entries(cs).contains(Ok(n)) <==> exists|i: int|
            0 <= i < cs.len() && is_containing_branch_named(#[trigger] cs[i], n),
    decreases cs.len(),
{
    if cs.len() > 0 {
        let init = cs.drop_last();
        lemma_listed_names_are_containing_branches(init, n);
        let before = branch_entries(init);
        let all = branch_entries(cs);
        let name = Ok::<Seq<char>, ErrorView>(n);
        assert(is_containing_branch_named(cs.last(), n) <==> branch_entry(cs.last()) == Some(name));
        if all.contains(name) {
            let i = choose|i: int| 0 <= i < all.len() && all[i] == name;
            if i < before.len() {
                assert(before[i] == name);
                let j = choose|j: int|
                    0 <= j < init.len() && is_containing_branch_named(#[trigger] init[j], n);
                assert(cs[j] == init[j]);
            } else {
                assert(is_containing_branch_named(cs[cs.len() - 1], n));
            }
        }
        if exists|i: int| 0 <= i < cs.len() && is_containing_branch_named(#[trigger] cs[i], n) {
            let i = choose|i: int| 0 <= i < cs.len() && is_containing_branch_named(#[trigger] cs[i], n);
            if i < init.len() {
                assert(is_containing_branch_named(init[i], n));
                let j = choose|j: int| 0 <= j < before.len() && before[j] == name;
                assert(all[j] == before[j]);
            } else {
                assert(all[all.len() - 1] == name);
            }
        }
    }
}

/// A commit whose message is the trailer `Co-authored-by: name <email>` has
/// exactly one co-author, and it reads as that name and email (at the UNIX
/// epoch), where git accepts them as they are.
pub proof fn lemma_trailer_co_author(c: Commit, name: Seq<char>, email: Seq<char>)
    requires
        c.message_text() == trailer_prefix() + actor_string(name, email),
        signature_accepts(name, email),
        trim_crud(name) == name,
        trim_crud(email) == email,
        !is_whitespace(name[0]),
        !name.contains('\n'),
        !email.contains('\n'),
    ensures
        co_author_entries(c.message_text()) == seq![actor_string(name, email)],
        parses_actor(
            co_author_entries(c.message_text())[0],
            Ok(ActorView { name: Some(name), email: Some(email), seconds: 0, offset: 0 }),
        ),
{
    lemma_single_trailer(name, email);
    lemma_actor_string_round_trip(name, email);
}

impl Commit {
    /// Instantiate a new Commit from its parts
    pub fn new(
        hash: String,
        message: Option<String>,
        author: Actor,
        committer: Actor,
        parents: Vec<String>,
    ) -> (r: Commit)
        ensures
            r@ == (CommitView {
                hash: hash@,
                message: opt_view(message),
                author: author@,
                committer: committer@,
                parents: strings_view(parents@),
            }),
    {
        Commit { hash, message, author, committer, parents }
    }

    /// Return the commit hash
    pub fn hash(&self) -> (r: String)
        ensures
            r@ == self@.hash,
    {
        self.hash.clone()
    }

    /// Return the commit message if it exists
    pub fn msg(&self) -> (r: Option<&str>)
        ensures
            opt_str_view(r) == self@.message,
    {
        opt_as_str(&self.message)
    }

    /// Return the commit author
    pub fn author(&self) -> (r: Actor)
        ensures
            r@ == self@.author,
    {
        self.author.clone()
    }

    /// Return the commit committer
    pub fn committer(&self) -> (r: Actor)
        ensures
            r@ == self@.committer,
    {
        self.committer.clone()
    }

    /// Return the co-authors as listed in the commit message.
    ///
    /// A co-author listed more than once is **not** de-duplicated.
    pub fn co_authors(&self) -> (r: Vec<Result<Actor, Error>>)
        ensures
            r.len() == co_author_entries(self.message_text()).len(),
            forall|i: int|
                0 <= i < r.len() ==> parses_actor(
                    co_author_entries(self.message_text())[i],
                    actor_result_view(#[trigger] r@[i]),
                ),
    {
        let text = match &self.message {
            Some(m) => m.as_str(),
            None => "",
        };
        assert(text@ == self.message_text()) by {
            reveal_strlit("");
        }
        let entries = iter_co_authors(text);
        let mut r: Vec<Result<Actor, Error>> = Vec::new();
        let mut i: usize = 0;
        while i < entries.len()
            invariant
                i <= entries.len(),
                entries@.map_values(|p: String| p@) == co_author_entries(self.message_text()),
                r.len() == i,
                forall|j: int|
                    0 <= j < i ==> parses_actor(
                        co_author_entries(self.message_text())[j],
                        actor_result_view(#[trigger] r@[j]),
                    ),
            decreases entries.len() - i,
        {
            assert(entries@.map_values(|p: String| p@)[i as int] == entries@[i as int]@);
            r.push(Actor::from_str(entries[i].as_str()));
            i = i + 1;
        }
        r
    }

    /// The text of the commit message, empty where there is none.
    pub open spec fn message_text(&self) -> Seq<char> {
        match self@.message {
            Some(m) => m,
            None => Seq::empty(),
        }
    }

    /// Return the hashes of all commit parents
    pub fn parents(&self) -> (r: Vec<String>)
        ensures
            strings_view(r@) == self@.parents,
    {
        clone_strings(&self.parents)
    }

    /// Return whether the commit is a merge commit: one with more than one parent
    pub fn is_merge(&self) -> (r: bool)
        ensures
            r == (self@.parents.len() > 1),
    {
        self.parents.len() > 1
    }

    /// Resolve which tree the commit is diffed against: the index of the
    /// parent whose tree it is, or `None` for the empty tree.
    pub fn resolve_parent_tree(&self) -> (r: Result<Option<usize>, Error>)
        ensures
            match (r, parent_tree_for(self@.parents.len())) {
                (Ok(i), Ok(j)) => i == j,
                (Err(e), Err(f)) => e@ == f,
                _ => false,
            },
    {
        let n = self.parents.len();
        if n == 0 {
            Ok(None)
        } else if n == 1 {
            Ok(Some(0))
        } else {
            Err(Error::PathError("Placeholder error".to_string()))
        }
    }

    /// The total number of lines modified in the commit, from its number of
    /// insertions and of deletions: their sum, or the first error of the two.
    pub fn lines_from(insertions: Result<usize, Error>, deletions: Result<usize, Error>) -> (r:
        Result<usize, Error>)
        requires
            (insertions, deletions) matches (Ok(a), Ok(d)) ==> a + d <= usize::MAX,
        ensures
            match (insertions, deletions) {
                (Err(e), _) => r matches Err(f) && f@ == e@,
                (Ok(_), Err(e)) => r matches Err(f) && f@ == e@,
                (Ok(a), Ok(d)) => r == Ok::<usize, Error>((a + d) as usize),
            },
    {
        let a = match insertions {
            Err(e) => return Err(e),
            Ok(a) => a,
        };
        let d = match deletions {
            Err(e) => return Err(e),
            Ok(d) => d,
        };
        Ok(a + d)
    }

    /// The names of the branches that contain the commit, from what git lists
    /// for it: an error in listing the branches is passed on; otherwise each
    /// listed branch gives what [`branch_entry`] says, in order.
    pub fn branch_iterator(listing: Result<Vec<Result<BranchCandidate, Error>>, Error>) -> (r:
        Result<Vec<Result<String, Error>>, Error>)
        ensures
            match listing {
                Err(e) => r matches Err(f) && f@ == e@,
                Ok(cs) => r matches Ok(names) && names@.map_values(
                    |n: Result<String, Error>| name_result_view(n),
                ) == branch_entries(cs@.map_values(|c: Result<BranchCandidate, Error>| candidate_view(c))),
            },
    {
        let cs = match listing {
            Err(e) => return Err(e),
            Ok(cs) => cs,
        };
        let ghost views = cs@.map_values(|c: Result<BranchCandidate, Error>| candidate_view(c));
        let mut names: Vec<Result<String, Error>> = Vec::new();
        let mut i: usize = 0;
        assert(views.take(0) =~= Seq::empty());
        assert(names@.map_values(|n: Result<String, Error>| name_result_view(n)) =~= Seq::empty());
        while i < cs.len()
            invariant
                i <= cs.len(),
                views == cs@.map_values(|c: Result<BranchCandidate, Error>| candidate_view(c)),
                names@.map_values(|n: Result<String, Error>| name_result_view(n)) == branch_entries(
                    views.take(i as int),
                ),
            decreases cs.len() - i,
        {
            assert(views.take(i + 1).drop_last() =~= views.take(i as int));
            assert(views.take(i + 1).last() == candidate_view(cs@[i as int]));
            let ghost before = names@.map_values(|n: Result<String, Error>| name_result_view(n));
            match &cs[i] {
                Err(e) => {
                    names.push(Err(e.clone()));
                },
                Ok(b) => {
                    let contained = b.has_target && (b.target_is_commit || match b.descendant_of_commit {
                        Some(d) => d,
                        None => false,
                    });
                    if contained {
                        match &b.name {
                            Ok(Some(n)) => {
                                names.push(Ok(n.clone()));
                            },
                            Ok(None) => {},
                            Err(e) => {
                                names.push(Err(e.clone()));
                            },
                        }
                    }
                },
            }
            assert(names@.map_values(|n: Result<String, Error>| name_result_view(n)) =~= match branch_entry(views.take(i + 1).last()) {
                Some(e) => before.push(e),
                None => before,
            });
            i = i + 1;
        }
        assert(views.take(cs.len() as int) =~= views);
        Ok(names)
    }

    /// Check whether the commit is reachable from "main" or "master", given
    /// the local branches that contain it: an error in listing them is passed on.
    pub fn in_main(local_branches: Result<Vec<Result<String, Error>>, Error>) -> (r: Result<
        bool,
        Error,
    >)
        ensures
            match local_branches {
                Err(e) => r matches Err(f) && f@ == e@,
                Ok(bs) => r == Ok::<bool, Error>(
                    names_main(bs@.map_values(|n: Result<String, Error>| name_result_view(n))),
                ),
            },
    {
        match local_branches {
            Err(e) => Err(e),
            Ok(bs) => Ok(names_main_branch(&bs)),
        }
    }
}

/// Whether one of the branch names (or errors) is `main` or `master`.
fn names_main_branch(bs: &Vec<Result<String, Error>>) -> (r: bool)
    ensures
        r == names_main(bs@.map_values(|n: Result<String, Error>| name_result_view(n))),
{
    let ghost views = bs@.map_values(|n: Result<String, Error>| name_result_view(n));
    let mut i: usize = 0;
    while i < bs.len()
        invariant
            i <= bs.len(),
            views == bs@.map_values(|n: Result<String, Error>| name_result_view(n)),
            forall|j: int|
                0 <= j < i ==> !(views[j] == Ok::<Seq<char>, ErrorView>("main"@) || views[j]
                    == Ok::<Seq<char>, ErrorView>("master"@)),
        decreases bs.len() - i,
    {
        match &bs[i] {
            Ok(name) => {
                if str_eq(name.as_str(), "main") || str_eq(name.as_str(), "master") {
                    assert(views[i as int] == Ok::<Seq<char>, ErrorView>(name@));
                    return true;
                }
            },
            Err(_) => {},
        }
        i = i + 1;
    }
    false
}

/// What can be mined of a commit.
pub trait MinedCommit<'a> {
    type Actor: MinedActor + 'a;

    /// The commit's hash.
    spec fn commit_hash(&self) -> Seq<char>;

    /// The commit's message, if it has one.
    spec fn commit_message(&self) -> Option<Seq<char>>;

    /// The hashes of the commit's parents.
    spec fn parent_hashes(&self) -> Seq<Seq<char>>;

    /// Whether `a` is the commit's author.
    spec fn is_author(&self, a: Self::Actor) -> bool;

    /// Whether `a` is the commit's committer.
    spec fn is_committer(&self, a: Self::Actor) -> bool;

    /// Return the commit hash (AKA Oid)
    fn hash(&self) -> (r: String)
        ensures
            r@ == self.commit_hash(),
    ;

    /// Return the commit message if it exists
    fn msg(&self) -> (r: Option<String>)
        ensures
            opt_view(r) == self.commit_message(),
    ;

    /// Return the commit author
    fn author(&'a self) -> (r: Self::Actor)
        ensures
            self.is_author(r),
    ;

    /// Return the commit committer
    fn committer(&'a self) -> (r: Self::Actor)
        ensures
            self.is_committer(r),
    ;

    /// Return the commit parent hashes if they exist: none for a root commit
    fn parents(&self) -> (r: Option<Vec<String>>)
        ensures
            match r {
                None => self.parent_hashes().len() == 0,
                Some(v) => self.parent_hashes().len() > 0 && strings_view(v@)
                    == self.parent_hashes(),
            },
    ;

    /// Return whether or not the commit is a merge commit
    ///
    /// A merge commit is defined as a commit with more than one parent
    fn is_merge(&self) -> (r: bool)
        ensures
            r == (self.parent_hashes().len() > 1),
    ;
}

impl<'a> MinedCommit<'a> for Commit {
    type Actor = Actor;

    open spec fn commit_hash(&self) -> Seq<char> {
        self@.hash
    }

    open spec fn commit_message(&self) -> Option<Seq<char>> {
        self@.message
    }

    open spec fn parent_hashes(&self) -> Seq<Seq<char>> {
        self@.parents
    }

    open spec fn is_author(&self, a: Actor) -> bool {
        a@ == self@.author
    }

    open spec fn is_committer(&self, a: Actor) -> bool {
        a@ == self@.committer
    }

    fn hash(&self) -> String {
        self.hash.clone()
    }

    fn msg(&self) -> Option<String> {
        crate::text::opt_clone(&self.message)
    }

    fn author(&'a self) -> Actor {
        self.author.clone()
    }

    fn committer(&'a self) -> Actor {
        self.committer.clone()
    }

    fn parents(&self) -> Option<Vec<String>> {
        if self.parents.len() == 0 {
            return None;
        }
        let mut parents: Vec<String> = Vec::new();
        let mut i: usize = 0;
        while i < self.parents.len()
            invariant
                i <= self.parents.len(),
                parents.len() == i,
                forall|j: int| 0 <= j < i ==> (#[trigger] parents@[j])@ == self.parents@[j]@,
            decreases self.parents.len() - i,
        {
            parents.push(self.parents[i].clone());
            i = i + 1;
        }
        assert(strings_view(parents@) =~= strings_view(self.parents@));
        Some(parents)
    }

    fn is_merge(&self) -> bool {
        self.parents.len() > 1
    }
}

/// What git reports about the lines and files a diff changes.
#[derive(Debug, Clone, Copy, PartialEq, Eq)]
pub struct DiffStats {
    pub files_changed: usize,
    pub insertions: usize,
    pub deletions: usize,
}

impl DiffStats {
    /// The number of insertions in the diff
    pub fn insertions(&self) -> (r: usize)
        ensures
            r == self.insertions,
    {
        self.insertions
    }

    /// The number of deletions in the diff
    pub fn deletions(&self) -> (r: usize)
        ensures
            r == self.deletions,
    {
        self.deletions
    }

    /// The total number of lines modified in the diff
    pub fn lines(&self) -> (r: usize)
        requires
            self.insertions + self.deletions <= usize::MAX,
        ensures
            r == self.insertions + self.deletions,
    {
        self.insertions + self.deletions
    }

    /// The number of files modified in the diff
    pub fn files(&self) -> (r: usize)
        ensures
            r == self.files_changed,
    {
        self.files_changed
    }
}

/// A stand-in actor for exercising code written against [`MinedActor`]:
/// `test <test@example.com>`, without a timestamp.
#[derive(Clone, Copy, PartialEq, Eq, Debug)]
pub struct MockActor;

impl MinedActor for MockActor {
    open spec fn actor_name(&self) -> Option<Seq<char>> {
        Some("test"@)
    }

    open spec fn actor_email(&self) -> Option<Seq<char>> {
        Some("test@example.com"@)
    }

    open spec fn actor_time(&self) -> Option<i64> {
        None
    }

    fn name(&self) -> Option<String> {
        Some("test".to_string())
    }

    fn email(&self) -> Option<String> {
        Some("test@example.com".to_string())
    }

    fn timestamp(&self) -> Option<UtcTime> {
        None
    }
}

} // verus!
