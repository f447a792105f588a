use pinax::history::{parse_commit_files, parse_history};
use pinax::types::FileStatus;

#[test]
fn history_reads_six_fields() {
    let out = "abc\ta\tAda\tada@x.org\t2024-01-02T03:04:05+00:00\tFirst commit\nshort\tline\nd\te\tf\tg\th\ti\tj";
    let c = parse_history(out);
    assert_eq!(c.len(), 2);
    assert_eq!(c[0].hash, "abc");
    assert_eq!(c[0].short_hash, "a");
    assert_eq!(c[0].author, "Ada");
    assert_eq!(c[0].email, "ada@x.org");
    assert_eq!(c[0].timestamp, "2024-01-02T03:04:05+00:00");
    assert_eq!(c[0].message, "First commit");
    assert_eq!(c[1].message, "i");
}

#[test]
fn commit_files_skip_header_and_map_codes() {
    let out = "abc1234 Subject line\nA\tnew.rs\nD\told.rs\nR100\tfrom.rs\tto.rs\nC\tcopy.rs\n\nM\tmod.rs\nX\tweird.rs\nlonely";
    let f = parse_commit_files(out);
    let got: Vec<(String, FileStatus)> = f.iter().map(|c| (c.path.clone(), c.status)).collect();
    assert_eq!(
        got,
        vec![
            ("new.rs".to_string(), FileStatus::Added),
            ("old.rs".to_string(), FileStatus::Deleted),
            ("from.rs".to_string(), FileStatus::Renamed),
            ("copy.rs".to_string(), FileStatus::Copied),
            ("mod.rs".to_string(), FileStatus::Modified),
            ("weird.rs".to_string(), FileStatus::Modified),
        ]
    );
}

#[test]
fn unknown_code_defaults_to_modified() {
    let f = parse_commit_files("header\nZ file.txt");
    assert_eq!(f.len(), 1);
    assert_eq!(f[0].status, FileStatus::Modified);
    assert_eq!(f[0].path, "file.txt");
    assert!(parse_commit_files("").is_empty());
}
