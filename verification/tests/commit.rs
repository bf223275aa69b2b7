use stratum::{
    iter_co_authors, Actor, BranchCandidate, Commit, DiffStats, Error, GitError, MinedActor,
    MinedCommit, MockActor,
};

const EXPECTED_MSG: &str = "commit msg";
const EXPECTED_ACTOR_NAME: &str = "test";
const EXPECTED_ACTOR_EMAIL: &str = "test@example.com";

fn test_actor() -> Actor {
    Actor::new(
        Some(EXPECTED_ACTOR_NAME.to_string()),
        Some(EXPECTED_ACTOR_EMAIL.to_string()),
        1_700_000_000,
        0,
    )
}

/// The second commit of the two-commit fixture history: `file.txt` updated,
/// authored and committed by `test <test@example.com>` with message "commit msg".
fn commit_fixture() -> (Commit, DiffStats) {
    let commit = Commit::new(
        "3b18e512dba79e4c8300dd08aeb37f8e728b8dad".to_string(),
        Some(EXPECTED_MSG.to_string()),
        test_actor(),
        test_actor(),
        vec!["557db03de997c86a4a028e1ebd3a1ceb225be238".to_string()],
    );
    let stats = DiffStats {
        files_changed: 1,
        insertions: 1,
        deletions: 0,
    };
    (commit, stats)
}

fn sha1_hello_world() -> String {
    "0a4d55a8d778e5022fab701977c5d840bbc486d0".to_string()
}

#[test]
fn commit_test_msg() {
    let (commit, _) = commit_fixture();
    assert_eq!(commit.msg(), Some(EXPECTED_MSG));
}

#[test]
fn commit_test_author() {
    let (commit, _) = commit_fixture();
    assert_eq!(
        commit.author().name().unwrap(),
        EXPECTED_ACTOR_NAME.to_string()
    );
    assert_eq!(
        commit.author().email().unwrap(),
        EXPECTED_ACTOR_EMAIL.to_string()
    );
}

#[test]
fn test_co_authors() {
    let (commit, _) = commit_fixture();
    for co_auth in commit.co_authors() {
        assert!(co_auth.is_ok());
    }
}

#[test]
fn commit_test_committer() {
    let (commit, _) = commit_fixture();
    assert_eq!(
        commit.committer().name().unwrap(),
        EXPECTED_ACTOR_NAME.to_string()
    );
    assert_eq!(
        commit.committer().email().unwrap(),
        EXPECTED_ACTOR_EMAIL.to_string()
    );
}

#[test]
fn commit_test_parents() {
    let (commit, _) = commit_fixture();
    assert_eq!(commit.parents().len(), 1);
}

#[test]
fn commit_test_is_merge() {
    let (commit, _) = commit_fixture();
    assert!(!commit.is_merge());
}

#[test]
fn commit_test_lines() {
    let (_, stats) = commit_fixture();
    assert_eq!(
        Commit::lines_from(Ok(stats.insertions()), Ok(stats.deletions())),
        Ok(1)
    );
}

#[test]
fn test_iter_matches() {
    let haystack = "Co-authored-by: John <john@example.com>";
    assert_eq!(iter_co_authors(haystack).len(), 1);

    let haystack = "No matches expected";
    assert_eq!(iter_co_authors(haystack).len(), 0);
}

#[test]
fn test_hash() {
    let hash = sha1_hello_world();
    let commit = Commit::new(
        hash.clone(),
        None,
        test_actor(),
        test_actor(),
        Vec::new(),
    );

    assert_eq!(commit.hash(), hash);
    assert_eq!(MinedCommit::hash(&commit), hash);
}

#[test]
fn mined_commit_parents() {
    let root = Commit::new("a".to_string(), None, test_actor(), test_actor(), Vec::new());
    assert_eq!(MinedCommit::parents(&root), None);
    assert!(!MinedCommit::is_merge(&root));

    let parents = vec![sha1_hello_world(), "b".to_string()];
    let merge = Commit::new(
        "c".to_string(),
        Some("Hello World".to_string()),
        test_actor(),
        test_actor(),
        parents.clone(),
    );
    assert_eq!(MinedCommit::parents(&merge), Some(parents));
    assert!(MinedCommit::is_merge(&merge));
    assert_eq!(
        MinedCommit::msg(&merge),
        Some("Hello World".to_string())
    );
    assert_eq!(
        MinedCommit::author(&merge).name(),
        Some(EXPECTED_ACTOR_NAME)
    );
    assert_eq!(
        MinedCommit::committer(&merge).email(),
        Some(EXPECTED_ACTOR_EMAIL)
    );
}

#[test]
fn mock_actor_is_test_user() {
    let actor = MockActor;

    assert_eq!(actor.name(), Some("test".to_string()));
    assert_eq!(actor.email(), Some("test@example.com".to_string()));
    assert_eq!(actor.timestamp(), None);
    assert_eq!(actor.clone(), MockActor);
}

#[test]
fn co_authors_from_trailers() {
    let msg = "Fix the thing\n\nCo-authored-by: Jane Doe <jane@example.com>\nCo-authored-by: John <john@example.com>\n";
    let commit = Commit::new(
        "a".to_string(),
        Some(msg.to_string()),
        test_actor(),
        test_actor(),
        Vec::new(),
    );

    let co_authors: Vec<Actor> = commit
        .co_authors()
        .into_iter()
        .map(|r| r.unwrap())
        .collect();
    assert_eq!(co_authors.len(), 2);
    assert_eq!(co_authors[0].name(), Some("Jane Doe"));
    assert_eq!(co_authors[0].email(), Some("jane@example.com"));
    assert_eq!(co_authors[1].name(), Some("John"));
    assert_eq!(co_authors[0].timestamp().unwrap().timestamp(), 0);
}

#[test]
fn co_authors_are_not_deduplicated() {
    let haystack = "Co-authored-by: John <john@example.com>\nCo-authored-by: John <john@example.com>";

    assert_eq!(
        iter_co_authors(haystack),
        vec!["John <john@example.com>", "John <john@example.com>"]
    );
}

#[test]
fn trailer_lines_must_be_whole_lines() {
    // not at the start of a line, trailing text after '>', a CRLF line ending,
    // a missing space before '<'
    let haystack = "see Co-authored-by: A <a@b>\nCo-authored-by: B <b@c> x\nCo-authored-by: C <c@d>\r\nCo-authored-by: D<d@e>\nCo-authored-by:  E  <e@f>";

    assert_eq!(iter_co_authors(haystack), vec!["E  <e@f>"]);
}

#[test]
fn co_author_that_git_refuses() {
    let commit = Commit::new(
        "a".to_string(),
        Some("Co-authored-by: A <<a@b>".to_string()),
        test_actor(),
        test_actor(),
        Vec::new(),
    );
    let co_authors = commit.co_authors();

    assert_eq!(co_authors.len(), 1);
    assert!(matches!(co_authors[0], Err(Error::Git(_))));
}

#[test]
fn commit_without_message_has_no_co_authors() {
    let commit = Commit::new("a".to_string(), None, test_actor(), test_actor(), Vec::new());

    assert_eq!(commit.msg(), None);
    assert!(commit.co_authors().is_empty());
}

#[test]
fn parent_tree_by_parent_count() {
    let root = Commit::new("a".to_string(), None, test_actor(), test_actor(), Vec::new());
    assert_eq!(root.resolve_parent_tree(), Ok(None));

    let (child, _) = commit_fixture();
    assert_eq!(child.resolve_parent_tree(), Ok(Some(0)));

    let merge = Commit::new(
        "m".to_string(),
        None,
        test_actor(),
        test_actor(),
        vec!["a".to_string(), "b".to_string()],
    );
    assert_eq!(
        merge.resolve_parent_tree(),
        Err(Error::PathError("Placeholder error".to_string()))
    );
}

fn candidate(
    has_target: bool,
    target_is_commit: bool,
    descendant_of_commit: Option<bool>,
    name: Result<Option<&str>, Error>,
) -> BranchCandidate {
    BranchCandidate {
        has_target,
        target_is_commit,
        descendant_of_commit,
        name: name.map(|n| n.map(|s| s.to_string())),
    }
}

fn git_error(msg: &str) -> Error {
    Error::Git(GitError {
        code: -3,
        class: 4,
        message: msg.to_string(),
    })
}

#[test]
fn branch_selection() {
    let listing = vec![
        Ok(candidate(true, true, Some(false), Ok(Some("master")))),
        Ok(candidate(false, false, None, Ok(Some("symbolic")))),
        Ok(candidate(true, false, Some(false), Ok(Some("elsewhere")))),
        Ok(candidate(true, false, None, Ok(Some("query-failed")))),
        Ok(candidate(true, false, Some(true), Ok(None))),
        Err(git_error("listing failed")),
        Ok(candidate(true, false, Some(true), Err(git_error("bad name")))),
        Ok(candidate(true, false, Some(true), Ok(Some("b1")))),
    ];
    let names = Commit::branch_iterator(Ok(listing)).unwrap();

    assert_eq!(
        names,
        vec![
            Ok("master".to_string()),
            Err(git_error("listing failed")),
            Err(git_error("bad name")),
            Ok("b1".to_string()),
        ]
    );
}

#[test]
fn branch_with_failed_query_is_not_listed() {
    let listing = vec![Ok(candidate(true, false, None, Ok(Some("master"))))];
    let names = Commit::branch_iterator(Ok(listing)).unwrap();

    assert!(names.is_empty());
    assert_eq!(Commit::in_main(Ok(names)), Ok(false));
}

#[test]
fn in_main_needs_main_to_contain_the_commit() {
    // "main" is listed but does not contain the commit; "feature" does
    let listing = vec![
        Ok(candidate(true, false, Some(false), Ok(Some("main")))),
        Ok(candidate(true, false, Some(true), Ok(Some("feature")))),
    ];
    assert_eq!(Commit::in_main(Commit::branch_iterator(Ok(listing))), Ok(false));

    // "master" contains it as a descendant
    let listing = vec![Ok(candidate(true, false, Some(true), Ok(Some("master"))))];
    assert_eq!(Commit::in_main(Commit::branch_iterator(Ok(listing))), Ok(true));
}

#[test]
fn branch_listing_error_is_passed_on() {
    assert_eq!(
        Commit::branch_iterator(Err(git_error("no refs"))),
        Err(git_error("no refs"))
    );
}

#[test]
fn in_main_detection() {
    assert_eq!(
        Commit::in_main(Ok(vec![Ok("b1".to_string()), Ok("master".to_string())])),
        Ok(true)
    );
    assert_eq!(
        Commit::in_main(Ok(vec![Ok("main".to_string())])),
        Ok(true)
    );
    assert_eq!(
        Commit::in_main(Ok(vec![Ok("mainline".to_string()), Err(git_error("x"))])),
        Ok(false)
    );
    assert_eq!(Commit::in_main(Ok(Vec::new())), Ok(false));
    assert_eq!(
        Commit::in_main(Err(git_error("no refs"))),
        Err(git_error("no refs"))
    );
}

#[test]
fn diff_stats_accessors() {
    let stats = DiffStats {
        files_changed: 2,
        insertions: 60,
        deletions: 63,
    };

    assert_eq!(stats.insertions(), 60);
    assert_eq!(stats.deletions(), 63);
    assert_eq!(stats.lines(), 123);
    assert_eq!(stats.files(), 2);
}

/// What git lists for the HEAD of a repository whose `master` points at HEAD
/// and whose `b1`, not merged into `master`, adds a commit on top of it: git
/// does not count a commit as its own descendant.
fn branches_not_merged_head_listing() -> Vec<Result<BranchCandidate, Error>> {
    vec![
        Ok(candidate(true, false, Some(true), Ok(Some("b1")))),
        Ok(candidate(true, true, Some(false), Ok(Some("master")))),
    ]
}

/// What git lists in the same repository for the tip of `b1`, which `master`
/// does not contain.
fn branches_not_merged_b1_tip_listing() -> Vec<Result<BranchCandidate, Error>> {
    vec![
        Ok(candidate(true, true, Some(false), Ok(Some("b1")))),
        Ok(candidate(true, false, Some(false), Ok(Some("master")))),
    ]
}

#[test]
fn commit_test_branches() {
    let b: Vec<String> = Commit::branch_iterator(Ok(branches_not_merged_head_listing()))
        .unwrap()
        .into_iter()
        .map(|v| v.unwrap())
        .collect();

    assert!(b.contains(&"master".to_string()));
    assert!(b.contains(&"b1".to_string()));
    assert!(b.contains(&"b1".to_string()));
}

#[test]
fn commit_test_local_branches() {
    let b: Vec<String> = Commit::branch_iterator(Ok(branches_not_merged_head_listing()))
        .unwrap()
        .into_iter()
        .map(|v| v.unwrap())
        .collect();

    assert!(b.contains(&"master".to_string()));
    assert!(b.contains(&"b1".to_string()));
    assert!(b.contains(&"b1".to_string()));
}

#[test]
fn commit_test_remote_branches() {
    // there are no remote branches to list
    let b = Commit::branch_iterator(Ok(Vec::new())).unwrap();

    assert_eq!(b.len(), 0)
}

#[test]
fn test_in_main_branch() {
    let local = Commit::branch_iterator(Ok(branches_not_merged_head_listing()));

    assert!(Commit::in_main(local).unwrap());
}

#[test]
fn test_not_in_main_branch() {
    // The commit here is the HEAD of branch "b1" which has not been merged
    // into main
    let local = Commit::branch_iterator(Ok(branches_not_merged_b1_tip_listing()));

    assert!(!Commit::in_main(local).unwrap());
}

const SMALL_REPO_COMMIT: &str = "1f99848edadfffa903b8ba1286a935f1b92b2845";

#[test]
fn test_commit_message() {
    let commit = Commit::new(
        SMALL_REPO_COMMIT.to_string(),
        Some("add file3\n".to_string()),
        test_actor(),
        test_actor(),
        vec!["a88c84ddf42066611e76e6cb690144e5357d132c".to_string()],
    );

    assert_eq!(commit.msg(), Some("add file3\n"));
}

#[test]
fn test_commit_sha() {
    let commit = Commit::new(
        SMALL_REPO_COMMIT.to_string(),
        Some("add file3\n".to_string()),
        test_actor(),
        test_actor(),
        Vec::new(),
    );

    assert_eq!(commit.hash(), SMALL_REPO_COMMIT.to_string());
}

#[test]
fn repository_test_lines() {
    // the small repository's HEAD: 60 insertions and 63 deletions
    assert_eq!(Commit::lines_from(Ok(60), Ok(63)), Ok(123));
}

#[test]
fn lines_pass_on_the_first_error() {
    assert_eq!(
        Commit::lines_from(Err(git_error("no diff")), Ok(3)),
        Err(git_error("no diff"))
    );
    assert_eq!(
        Commit::lines_from(Ok(3), Err(git_error("no stats"))),
        Err(git_error("no stats"))
    );
    assert_eq!(
        Commit::lines_from(Err(git_error("first")), Err(git_error("second"))),
        Err(git_error("first"))
    );
}

fn local_listing() -> Vec<Result<BranchCandidate, Error>> {
    vec![
        Ok(candidate(true, true, Some(false), Ok(Some("master")))),
        Ok(candidate(true, false, Some(false), Ok(Some("b1")))),
    ]
}

fn remote_listing() -> Vec<Result<BranchCandidate, Error>> {
    vec![
        Ok(candidate(true, false, Some(true), Ok(Some("origin/master")))),
        Err(git_error("bad ref")),
    ]
}

#[test]
fn branches_of_two_listings_are_those_of_each() {
    let mut all = Commit::branch_iterator(Ok(local_listing())).unwrap();
    all.extend(Commit::branch_iterator(Ok(remote_listing())).unwrap());
    let mut both = local_listing();
    both.extend(remote_listing());

    assert_eq!(Commit::branch_iterator(Ok(both)).unwrap(), all);
    assert_eq!(
        all,
        vec![
            Ok("master".to_string()),
            Ok("origin/master".to_string()),
            Err(git_error("bad ref")),
        ]
    );
}
