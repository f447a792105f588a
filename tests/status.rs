use pinax::status::{char_to_file_status, parse_porcelain_status, parse_tracking_counts, status_from_outputs};
use pinax::types::{FileStatus, RepositoryStatus};

fn paths(v: &[pinax::types::FileChange]) -> Vec<(String, FileStatus)> {
    v.iter().map(|c| (c.path.clone(), c.status)).collect()
}

#[test]
fn porcelain_sorts_lines_into_lists() {
    let out = "M  staged.rs\n M work.rs\nMM both.rs\n?? new.txt\nA  added.rs\n D gone.rs\nR  renamed.rs";
    let s = status_from_outputs("main".to_string(), out, None);
    assert_eq!(s.branch, "main");
    assert_eq!(
        paths(&s.staged),
        vec![
            ("staged.rs".to_string(), FileStatus::Modified),
            ("both.rs".to_string(), FileStatus::Modified),
            ("added.rs".to_string(), FileStatus::Added),
            ("renamed.rs".to_string(), FileStatus::Renamed),
        ]
    );
    assert_eq!(
        paths(&s.unstaged),
        vec![
            ("work.rs".to_string(), FileStatus::Modified),
            ("both.rs".to_string(), FileStatus::Modified),
            ("gone.rs".to_string(), FileStatus::Deleted),
        ]
    );
    assert_eq!(s.untracked, vec!["new.txt".to_string()]);
    assert!(s.conflicts.is_empty());
    assert!(!s.is_clean);
}

#[test]
fn worktree_u_is_only_a_conflict() {
    let s = status_from_outputs("main".to_string(), "MU file.rs\nUU both.rs\nAA add.rs\nDD del.rs", None);
    assert_eq!(
        paths(&s.conflicts),
        vec![
            ("file.rs".to_string(), FileStatus::Conflicted),
            ("both.rs".to_string(), FileStatus::Conflicted),
            ("add.rs".to_string(), FileStatus::Conflicted),
            ("del.rs".to_string(), FileStatus::Conflicted),
        ]
    );
    assert!(s.unstaged.is_empty());
    assert!(s.staged.is_empty());
    assert!(s.untracked.is_empty());
    assert!(!s.is_clean);
}

#[test]
fn empty_output_is_clean() {
    let s = status_from_outputs("main".to_string(), "", Some("0\t0"));
    assert!(s.is_clean);
    assert_eq!((s.ahead, s.behind), (0, 0));
}

#[test]
fn short_lines_are_skipped() {
    let s = status_from_outputs("dev".to_string(), "M\n??", None);
    assert!(s.staged.is_empty() && s.untracked.is_empty());
    assert!(s.is_clean);
}

#[test]
fn clean_flag_follows_lists() {
    let mut s = RepositoryStatus::default();
    assert_eq!(s.branch, "unknown");
    assert!(s.is_clean);
    parse_porcelain_status("?? a.txt\r\n", &mut s);
    assert_eq!(s.untracked, vec!["a.txt".to_string()]);
    assert!(!s.is_clean);
}

#[test]
fn tracking_counts_are_ahead_then_behind() {
    assert_eq!(parse_tracking_counts("3\t5"), (5, 3));
    assert_eq!(parse_tracking_counts("x 2"), (2, 0));
    assert_eq!(parse_tracking_counts("1 2 3"), (0, 0));
    assert_eq!(parse_tracking_counts("+7 4294967296"), (0, 7));
    let s = status_from_outputs("main".to_string(), "", Some("2 1"));
    assert_eq!((s.ahead, s.behind), (1, 2));
}

#[test]
fn status_codes() {
    assert_eq!(char_to_file_status('A'), Some(FileStatus::Added));
    assert_eq!(char_to_file_status('C'), Some(FileStatus::Copied));
    assert_eq!(char_to_file_status('U'), Some(FileStatus::Conflicted));
    assert_eq!(char_to_file_status('T'), None);
}
