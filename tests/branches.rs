use pinax::branches::{
    branch_from_decorations, branch_from_status_header, next_branch_step, parse_branch_list, BranchQuery,
    BranchStep,
};
use pinax::executor::GitError;

fn done(step: BranchStep) -> Result<String, GitError> {
    match step {
        BranchStep::Done(r) => r,
        BranchStep::Run(q) => panic!("expected an answer, got another query {:?}", q),
    }
}

#[test]
fn detached_header_names_commit() {
    assert_eq!(branch_from_status_header("## HEAD detached at abc1234"), Some("abc1234".to_string()));
    let step = next_branch_step(BranchQuery::StatusHeader, Ok("## HEAD detached at abc1234".to_string()));
    assert_eq!(done(step).unwrap(), "abc1234");
}

#[test]
fn detached_header_drops_quotes_and_suffix() {
    assert_eq!(
        branch_from_status_header("## HEAD detached at 'v1.0' extra"),
        Some("v1.0".to_string())
    );
}

#[test]
fn plain_header_names_branch() {
    assert_eq!(
        branch_from_status_header("## feature/x...origin/feature/x [ahead 1]\n M a.rs"),
        Some("feature/x...origin/feature/x".to_string())
    );
    assert_eq!(branch_from_status_header(" M a.rs"), None);
    assert_eq!(branch_from_status_header("## HEAD (no branch)"), None);
}

#[test]
fn empty_repository_has_no_branch() {
    let e = GitError {
        message: "fatal: ambiguous argument 'HEAD': unknown revision or path not in the working tree.".to_string(),
        command: "rev-parse --abbrev-ref HEAD".to_string(),
        exit_code: Some(128),
    };
    assert_eq!(done(next_branch_step(BranchQuery::AbbrevRef, Err(e))).unwrap(), "No Branch");
}

#[test]
fn other_rev_parse_errors_propagate() {
    let e = GitError { message: "fatal: not a git repository".to_string(), command: "rev-parse".to_string(), exit_code: Some(128) };
    let r = done(next_branch_step(BranchQuery::AbbrevRef, Err(e)));
    assert_eq!(r.unwrap_err().message, "fatal: not a git repository");
}

#[test]
fn fallback_order() {
    let e = || GitError { message: "x".to_string(), command: "y".to_string(), exit_code: Some(1) };
    assert!(matches!(next_branch_step(BranchQuery::SymbolicRef, Err(e())), BranchStep::Run(BranchQuery::StatusHeader)));
    assert!(matches!(next_branch_step(BranchQuery::StatusHeader, Err(e())), BranchStep::Run(BranchQuery::AbbrevRef)));
    assert!(matches!(next_branch_step(BranchQuery::StatusHeader, Ok("## HEAD (no branch)".to_string())), BranchStep::Run(BranchQuery::AbbrevRef)));
    assert!(matches!(next_branch_step(BranchQuery::AbbrevRef, Ok("HEAD".to_string())), BranchStep::Run(BranchQuery::Decorations)));
    assert_eq!(done(next_branch_step(BranchQuery::SymbolicRef, Ok(" main \n".to_string()))).unwrap(), "main");
    assert_eq!(done(next_branch_step(BranchQuery::AbbrevRef, Ok("dev".to_string()))).unwrap(), "dev");
    assert_eq!(done(next_branch_step(BranchQuery::Decorations, Err(e()))).unwrap(), "HEAD");
    assert_eq!(done(next_branch_step(BranchQuery::Decorations, Ok("tag: v1".to_string()))).unwrap(), "HEAD");
    assert_eq!(BranchQuery::SymbolicRef.args(), vec!["symbolic-ref", "--short", "HEAD"]);
}

#[test]
fn decorations() {
    assert_eq!(branch_from_decorations("HEAD -> main, origin/main"), Some("main".to_string()));
    assert_eq!(branch_from_decorations("tag: v1.0, origin/feature/x"), Some("x".to_string()));
    assert_eq!(branch_from_decorations("HEAD, tag: v2"), None);
    assert_eq!(branch_from_decorations("a/b,HEAD -> x"), Some("x".to_string()));
    assert_eq!(done(next_branch_step(BranchQuery::Decorations, Ok("origin/dev, HEAD -> main".to_string()))).unwrap(), "main");
    assert_eq!(branch_from_decorations(""), None);
}

#[test]
fn listing_marks_current_and_remote() {
    let out = "refs/heads/main\t*\torigin/main\nrefs/remotes/origin/HEAD\t \t\nrefs/remotes/origin/main\t \t";
    let b = parse_branch_list(out);
    assert_eq!(b.len(), 2);
    assert_eq!(b[0].name, "main");
    assert!(b[0].is_current && !b[0].is_remote);
    assert_eq!(b[0].upstream, Some("origin/main".to_string()));
    assert_eq!(b[1].name, "origin/main");
    assert!(!b[1].is_current && b[1].is_remote);
    assert_eq!(b[1].upstream, None);
}

#[test]
fn listing_keeps_order_and_other_refs() {
    let b = parse_branch_list("refs/heads/zeta\nrefs/heads/alpha\t*\nplain");
    let names: Vec<&str> = b.iter().map(|x| x.name.as_str()).collect();
    assert_eq!(names, vec!["zeta", "alpha", "plain"]);
    assert!(b[1].is_current);
    assert!(parse_branch_list("").is_empty());
}
