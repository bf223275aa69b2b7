use git2::Delta;
use stratum::{Error, FileDelta, LineStats, ModifiedFile};

fn mfile_fixture() -> ModifiedFile {
    ModifiedFile::new(
        Some(FileDelta {
            old_path: Some("file.txt".to_string()),
            new_path: Some("file.txt".to_string()),
            status: Delta::Modified,
        }),
        Ok(Some(LineStats {
            context: 1,
            additions: 1,
            deletions: 0,
        })),
    )
}

#[test]
fn test_old_path() {
    let mfile = mfile_fixture();
    assert_eq!(mfile.old_path().unwrap(), "file.txt");
}

#[test]
fn test_new_path() {
    let mfile = mfile_fixture();
    assert_eq!(mfile.new_path().unwrap(), "file.txt");
}

#[test]
fn test_delta() {
    let mfile = mfile_fixture();
    assert_eq!(mfile.new_path().unwrap(), "file.txt");
    assert_eq!(mfile.status(), Some(Delta::Modified));
}

#[test]
fn line_counts_of_a_patch() {
    let mfile = mfile_fixture();

    assert_eq!(mfile.insertions(), Ok(1));
    assert_eq!(mfile.deletions(), Ok(0));
}

#[test]
fn unchanged_file_has_no_line_changes() {
    let mfile = ModifiedFile::new(
        Some(FileDelta {
            old_path: Some("empty".to_string()),
            new_path: Some("empty".to_string()),
            status: Delta::Deleted,
        }),
        Ok(None),
    );

    assert_eq!(mfile.insertions(), Ok(0));
    assert_eq!(mfile.deletions(), Ok(0));
}

#[test]
fn patch_error_is_passed_on() {
    let err = Error::PathError("broken patch".to_string());
    let mfile = ModifiedFile::new(None, Err(err.clone()));

    assert_eq!(mfile.insertions(), Err(err.clone()));
    assert_eq!(mfile.deletions(), Err(err));
    assert_eq!(mfile.old_path(), None);
    assert_eq!(mfile.status(), None);
    assert_eq!(mfile.filename(), None);
}

#[test]
fn filename_of_nested_path() {
    let mfile = ModifiedFile::new(
        Some(FileDelta {
            old_path: Some("src/main/A.java".to_string()),
            new_path: Some("src/main/A.java".to_string()),
            status: Delta::Modified,
        }),
        Ok(None),
    );

    assert_eq!(mfile.filename(), Some("A.java"));
}

#[test]
fn filename_of_deleted_file_uses_old_path() {
    let mfile = ModifiedFile::new(
        Some(FileDelta {
            old_path: Some("docs/old.md".to_string()),
            new_path: Some("/dev//null".to_string()),
            status: Delta::Deleted,
        }),
        Ok(None),
    );

    assert_eq!(mfile.filename(), Some("old.md"));
}

#[test]
fn filename_without_paths() {
    let mfile = ModifiedFile::new(
        Some(FileDelta {
            old_path: None,
            new_path: None,
            status: Delta::Unreadable,
        }),
        Ok(None),
    );

    assert_eq!(mfile.filename(), None);
    assert_eq!(mfile.status(), Some(Delta::Unreadable));
}

#[test]
fn filename_of_added_file() {
    let mfile = ModifiedFile::new(
        Some(FileDelta {
            old_path: None,
            new_path: Some("new/B.rs".to_string()),
            status: Delta::Added,
        }),
        Ok(Some(LineStats {
            context: 0,
            additions: 12,
            deletions: 0,
        })),
    );

    assert_eq!(mfile.filename(), Some("B.rs"));
    assert_eq!(mfile.insertions(), Ok(12));
}

/// The one file of the HEAD commit of the "diff" repository: `A.java`, from
/// which twelve lines were removed.
fn diff_repo_file() -> ModifiedFile {
    ModifiedFile::new(
        Some(FileDelta {
            old_path: Some("A.java".to_string()),
            new_path: Some("A.java".to_string()),
            status: Delta::Modified,
        }),
        Ok(Some(LineStats {
            context: 3,
            additions: 0,
            deletions: 12,
        })),
    )
}

/// The one file of the HEAD commit of the "empty_file_changes" repository:
/// an empty file, deleted, whose patch has no lines.
fn empty_file_change() -> ModifiedFile {
    ModifiedFile::new(
        Some(FileDelta {
            old_path: Some("empty.txt".to_string()),
            new_path: Some("empty.txt".to_string()),
            status: Delta::Deleted,
        }),
        Ok(None),
    )
}

#[test]
fn test_filename() {
    for mfile in [diff_repo_file()] {
        assert_eq!(mfile.filename(), Some("A.java"));
    }
}

#[test]
fn mfile_test_insertions() {
    for mfile in [diff_repo_file()] {
        assert_eq!(mfile.insertions(), Ok(0));
    }
}

#[test]
fn test_insertions_with_no_changes() {
    for mfile in [empty_file_change()] {
        assert_eq!(mfile.insertions(), Ok(0));
    }
}

#[test]
fn mfile_test_deletions() {
    for mfile in [diff_repo_file()] {
        assert_eq!(mfile.deletions(), Ok(12));
    }
}

#[test]
fn test_deletions_with_no_changes() {
    for mfile in [empty_file_change()] {
        assert_eq!(mfile.deletions(), Ok(0));
    }
}

fn named(path: &str) -> ModifiedFile {
    ModifiedFile::new(
        Some(FileDelta {
            old_path: None,
            new_path: Some(path.to_string()),
            status: Delta::Added,
        }),
        Ok(None),
    )
}

#[test]
fn filename_follows_path_components() {
    assert_eq!(named("usr/bin/").filename(), Some("bin"));
    assert_eq!(named("foo.txt/.").filename(), Some("foo.txt"));
    assert_eq!(named("foo.txt/.//").filename(), Some("foo.txt"));
    assert_eq!(named("a//b").filename(), Some("b"));
    assert_eq!(named("foo.txt/..").filename(), None);
    assert_eq!(named("/").filename(), None);
    assert_eq!(named(".").filename(), None);
    assert_eq!(named("").filename(), None);
}

#[test]
fn dev_null_is_compared_by_components() {
    for new_path in ["/dev/null", "//dev/./null/", "/dev//null"] {
        let mfile = ModifiedFile::new(
            Some(FileDelta {
                old_path: Some("src/gone.rs".to_string()),
                new_path: Some(new_path.to_string()),
                status: Delta::Deleted,
            }),
            Ok(None),
        );
        assert_eq!(mfile.filename(), Some("gone.rs"), "{new_path}");
    }
    // a relative path is not the device
    let mfile = ModifiedFile::new(
        Some(FileDelta {
            old_path: Some("src/gone.rs".to_string()),
            new_path: Some("dev/null".to_string()),
            status: Delta::Deleted,
        }),
        Ok(None),
    );
    assert_eq!(mfile.filename(), Some("null"));
}
