use pinax::executor::{join_args, spawn_failure, string_result, CommandOutput, GitError};
use pinax::operations::{
    abort_operation, continue_operation, discard_operations, file_diff_next, file_diff_start, push_initial_start,
    push_next, push_start, rebase_or_merge_in_progress, resolve_next, resolve_start, DiffStage, Operation,
    PushStage, ReadQuery, ResolveStage, Step,
};

fn output(success: bool, code: i32, stdout: &str, stderr: &str) -> CommandOutput {
    CommandOutput { success, exit_code: Some(code), stdout: stdout.to_string(), stderr: stderr.to_string() }
}

fn run_args<S, T>(step: &Step<S, T>) -> Vec<String> {
    match step {
        Step::Run(a, _) => a.clone(),
        Step::Done(_) => panic!("expected a command"),
    }
}

#[test]
fn error_text_with_and_without_code() {
    let e = GitError { message: "boom".to_string(), command: "push".to_string(), exit_code: Some(128) };
    assert_eq!(e.to_string(), "Git error (push) [exit 128]: boom");
    let e = GitError { message: "boom".to_string(), command: "fetch".to_string(), exit_code: None };
    assert_eq!(e.to_string(), "Git error (fetch): boom");
    let e = GitError { message: "m".to_string(), command: "c".to_string(), exit_code: Some(-3) };
    assert_eq!(e.to_string(), "Git error (c) [exit -3]: m");
}

#[test]
fn string_result_trims_or_fails() {
    let args = vec!["log".to_string(), "-1".to_string()];
    assert_eq!(join_args(&args), "log -1");
    assert_eq!(string_result(&output(true, 0, "text \n\n", ""), &args).unwrap(), "text");
    let e = string_result(&output(false, 2, "", "bad"), &args).unwrap_err();
    assert_eq!((e.message.as_str(), e.command.as_str(), e.exit_code), ("bad", "log -1", Some(2)));
    let e = spawn_failure(&args, "not found");
    assert_eq!(e.message, "Failed to execute git: not found");
    assert_eq!(e.command, "log -1");
    assert_eq!(e.exit_code, None);
}

#[test]
fn operation_commands_and_labels() {
    assert_eq!(Operation::Fetch.args(), vec!["fetch", "--all"]);
    assert_eq!(Operation::StageFile("a b.rs".to_string()).label(), "add a b.rs");
    assert_eq!(Operation::UnstageFile("x".to_string()).args(), vec!["reset", "HEAD", "--", "x"]);
    assert_eq!(Operation::RemoteAdd("origin".to_string(), "u".to_string()).label(), "remote add origin u");
    assert_eq!(Operation::Clone("u".to_string(), "/p".to_string()).args(), vec!["clone", "u", "/p"]);
    assert_eq!(ReadQuery::CommitFileDiff("abc".to_string(), "f".to_string()).args(), vec!["diff", "--no-color", "abc~1", "abc", "--", "f"]);
    assert_eq!(ReadQuery::Porcelain.args(), vec!["status", "--porcelain=v1"]);
}

#[test]
fn operation_failure_maps_to_error() {
    let e = Operation::RevertCommit("abc".to_string()).finish(Ok(output(false, 1, "", "conflict"))).unwrap_err();
    assert_eq!((e.message.as_str(), e.command.as_str(), e.exit_code), ("conflict", "revert --no-edit abc", Some(1)));
    assert!(Operation::Pull.finish(Ok(output(true, 0, "", ""))).is_ok());
    let e = Operation::Checkout("x".to_string()).finish(Ok(output(false, 1, "", "nope"))).unwrap_err();
    assert_eq!((e.message.as_str(), e.command.as_str()), ("nope", "checkout x"));
    assert_eq!(Operation::Fetch.label(), "fetch --all");
    let spawn = GitError { message: "gone".to_string(), command: "pull".to_string(), exit_code: None };
    assert_eq!(Operation::Pull.finish(Err(spawn)).unwrap_err().message, "gone");
}

#[test]
fn empty_commit_is_success() {
    for text in [
        "nothing to commit, working tree clean",
        "no changes added to commit",
        "nada para submeter",
        "nenhuma alteração adicionada ao commit",
    ] {
        assert!(Operation::Commit("m".to_string()).finish(Ok(output(false, 1, "", text))).is_ok());
    }
    let e = Operation::Commit("m".to_string()).finish(Ok(output(false, 1, "", "hook failed"))).unwrap_err();
    assert_eq!(e.command, "commit -m m");
}

#[test]
fn push_without_upstream_retries_once() {
    let first = push_start();
    assert_eq!(run_args(&first), vec!["push"]);
    let lookup = push_next(PushStage::Plain, Ok(output(false, 128, "", "fatal: The current branch dev has no upstream branch.")));
    assert_eq!(run_args(&lookup), vec!["rev-parse", "--abbrev-ref", "HEAD"]);
    let stage = match &lookup {
        Step::Run(_, s) => s.clone(),
        _ => unreachable!(),
    };
    let retry = push_next(stage, Ok(output(true, 0, "dev\n", "")));
    assert_eq!(run_args(&retry), vec!["push", "-u", "origin", "dev"]);
    let stage = match retry {
        Step::Run(_, s) => s,
        _ => unreachable!(),
    };
    match push_next(stage, Ok(output(false, 1, "", "rejected"))) {
        Step::Done(Err(e)) => {
            assert_eq!(e.message, "rejected");
            assert_eq!(e.command, "push -u origin dev");
            assert_eq!(e.exit_code, Some(1));
        },
        _ => panic!("expected the second failure"),
    }
}

#[test]
fn push_other_failures_and_lookup_failure() {
    match push_next(PushStage::Plain, Ok(output(false, 1, "", "denied"))) {
        Step::Done(Err(e)) => assert_eq!((e.message.as_str(), e.command.as_str()), ("denied", "push")),
        _ => panic!(),
    }
    let first = GitError { message: "no upstream".to_string(), command: "push".to_string(), exit_code: Some(128) };
    match push_next(PushStage::BranchLookup(first), Ok(output(false, 128, "", "x"))) {
        Step::Done(Err(e)) => assert_eq!(e.message, "no upstream"),
        _ => panic!(),
    }
    assert!(matches!(push_next(PushStage::Plain, Ok(output(true, 0, "", ""))), Step::Done(Ok(()))));
}

#[test]
fn initial_push_defaults_to_main() {
    assert_eq!(run_args(&push_initial_start()), vec!["rev-parse", "--abbrev-ref", "HEAD"]);
    let s = push_next(PushStage::InitialLookup, Ok(output(false, 128, "", "fatal")));
    assert_eq!(run_args(&s), vec!["push", "-u", "origin", "main"]);
}

#[test]
fn resolve_conflict_steps() {
    let f = "a.rs".to_string();
    let s = resolve_start(&f, "theirs");
    assert_eq!(run_args(&s), vec!["checkout", "--theirs", "--", "a.rs"]);
    match resolve_start(&f, "mine") {
        Step::Done(Err(e)) => {
            assert_eq!(e.message, "Invalid resolution");
            assert_eq!(e.command, "resolve_conflict");
            assert_eq!(e.exit_code, None);
        },
        _ => panic!("expected a local error"),
    }
    let next = resolve_next(ResolveStage::CheckoutSide("--ours".to_string()), &f, Ok(output(true, 0, "", "")));
    assert_eq!(run_args(&next), vec!["add", "a.rs"]);
    match resolve_next(ResolveStage::CheckoutSide("--ours".to_string()), &f, Ok(output(false, 1, "", "no"))) {
        Step::Done(Err(e)) => assert_eq!(e.command, "checkout --ours -- a.rs"),
        _ => panic!(),
    }
    assert!(matches!(resolve_next(ResolveStage::MarkResolved, &f, Ok(output(true, 0, "", ""))), Step::Done(Ok(()))));
    match resolve_next(ResolveStage::MarkResolved, &f, Ok(output(false, 128, "", "index.lock exists"))) {
        Step::Done(Err(e)) => {
            assert_eq!((e.message.as_str(), e.command.as_str(), e.exit_code), ("index.lock exists", "add a.rs", Some(128)));
        },
        _ => panic!("a failed add must fail the resolution"),
    }
}

#[test]
fn file_diff_falls_back_to_staged() {
    let f = "x.rs".to_string();
    assert_eq!(run_args(&file_diff_start(&f)), vec!["diff", "--no-color", "--", "x.rs"]);
    let s = file_diff_next(DiffStage::Unstaged, &f, Ok(output(true, 0, "\n", "")));
    assert_eq!(run_args(&s), vec!["diff", "--cached", "--no-color", "--", "x.rs"]);
    match file_diff_next(DiffStage::Unstaged, &f, Ok(output(true, 0, "+a\n", ""))) {
        Step::Done(Ok(d)) => assert_eq!(d, "+a"),
        _ => panic!(),
    }
    match file_diff_next(DiffStage::Staged, &f, Ok(output(true, 0, "", ""))) {
        Step::Done(Ok(d)) => assert_eq!(d, ""),
        _ => panic!(),
    }
}

#[test]
fn rebase_and_merge_choices() {
    assert!(matches!(continue_operation(true), Operation::ContinueRebase));
    assert!(matches!(abort_operation(false), Operation::AbortMerge));
    assert_eq!(continue_operation(false).args(), vec!["merge", "--continue"]);
    assert!(rebase_or_merge_in_progress(false, false, true, false));
    assert!(!rebase_or_merge_in_progress(false, false, false, false));
    let d = discard_operations(&"p".to_string());
    assert_eq!(d[0].args(), vec!["restore", "--staged", "--worktree", "--", "p"]);
    assert!(d[2].finish(Ok(output(false, 1, "", "x"))).is_ok());
}
