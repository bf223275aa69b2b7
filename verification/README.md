# stratum

Analyse a git repository one stratum at a time: commits, their authors and
co-authors, the branches that contain them and the files they touch.

## Layout

- `src/` is the library, written in Verus. It holds the data model (actors,
  commits, modified files, git URLs, errors) and every decision the miner
  makes, each with a contract that Verus proves:
  - `actor.rs`: actors and the reading of `name <email>` strings;
  - `coauthor.rs`: the `Co-authored-by:` trailer grammar;
  - `commit.rs`: commits, which branches contain them, whether they are in
    `main`/`master`, which tree they are diffed against, diff statistics;
  - `mfile.rs`: the files a commit touches and their names;
  - `url.rs`, `repository.rs`: git URLs, how a remote is cloned and where to,
    and the parsing of commit hashes;
  - `ssh_url.rs`: which URLs the URL parser can read a path from;
  - `git.rs`: the calls into `git2` that the logic makes, with what they
    promise;
  - `text.rs`: character-level helpers and their mathematical meaning.
- `app/` is plain Rust around the library: it opens and clones repositories,
  walks their history and reads commits, branches and diffs with `git2`, and
  hands what it reads to the library.
- `tests/` exercises the library on concrete values.
