//! The repository operations: the command each one runs, how its outcome is
//! judged, and the few that take more than one command.
use vstd::prelude::*;
use vstd::string::*;
use crate::branches::arg_views;
use crate::executor::{joined, string_result, CommandOutput, GitError, GitResult};
use crate::text::{chars_of, contains, contains_in, same_text, trim_end};

verus! {

/// A single-command operation on a repository.
#[derive(Clone, Debug)]
pub enum Operation {
    Fetch,
    Pull,
    StageFile(String),
    UnstageFile(String),
    Commit(String),
    UndoCommit,
    Checkout(String),
    CreateBranch(String),
    /// Branch name, then commit.
    CreateBranchFromCommit(String, String),
    CheckoutCommit(String),
    RevertCommit(String),
    ResetToCommit(String),
    CherryPickCommit(String),
    Init,
    /// Remote name, then URL.
    RemoteAdd(String, String),
    /// Remote name, then URL.
    RemoteSetUrl(String, String),
    /// URL, then target directory.
    Clone(String, String),
    ContinueRebase,
    ContinueMerge,
    AbortRebase,
    AbortMerge,
    /// Restores a path in the index and the worktree.
    RestoreStaged(String),
    /// Restores a path in the worktree.
    RestoreWorktree(String),
    /// Removes an untracked path.
    CleanPath(String),
}

/// The command line of an operation.
pub open spec fn op_args(op: Operation) -> Seq<Seq<char>> {
    match op {
        Operation::Fetch => seq!["fetch"@, "--all"@],
        Operation::Pull => seq!["pull"@],
        Operation::StageFile(f) => seq!["add"@, f@],
        Operation::UnstageFile(f) => seq!["reset"@, "HEAD"@, "--"@, f@],
        Operation::Commit(m) => seq!["commit"@, "-m"@, m@],
        Operation::UndoCommit => seq!["reset"@, "--soft"@, "HEAD~1"@],
        Operation::Checkout(b) => seq!["checkout"@, b@],
        Operation::CreateBranch(b) => seq!["checkout"@, "-b"@, b@],
        Operation::CreateBranchFromCommit(b, h) => seq!["branch"@, b@, h@],
        Operation::CheckoutCommit(h) => seq!["checkout"@, h@],
        Operation::RevertCommit(h) => seq!["revert"@, "--no-edit"@, h@],
        Operation::ResetToCommit(h) => seq!["reset"@, h@],
        Operation::CherryPickCommit(h) => seq!["cherry-pick"@, h@],
        Operation::Init => seq!["init"@],
        Operation::RemoteAdd(n, u) => seq!["remote"@, "add"@, n@, u@],
        Operation::RemoteSetUrl(n, u) => seq!["remote"@, "set-url"@, n@, u@],
        Operation::Clone(u, p) => seq!["clone"@, u@, p@],
        Operation::ContinueRebase => seq!["rebase"@, "--continue"@],
        Operation::ContinueMerge => seq!["merge"@, "--continue"@],
        Operation::AbortRebase => seq!["rebase"@, "--abort"@],
        Operation::AbortMerge => seq!["merge"@, "--abort"@],
        Operation::RestoreStaged(f) => seq!["restore"@, "--staged"@, "--worktree"@, "--"@, f@],
        Operation::RestoreWorktree(f) => seq!["restore"@, "--"@, f@],
        Operation::CleanPath(f) => seq!["clean"@, "-f"@, "--"@, f@],
    }
}

/// Whether a non-zero exit of the operation is a failure. Only the
/// best-effort cleanups that discard a path's changes are not judged.
pub open spec fn op_checked(op: Operation) -> bool {
    match op {
        Operation::RestoreStaged(_) | Operation::RestoreWorktree(_) | Operation::CleanPath(_) => false,
        _ => true,
    }
}

/// The command that an operation's error names: its argument list, joined.
pub open spec fn op_label(op: Operation) -> Seq<char> {
    joined(op_args(op))
}

/// Error text by which a commit with nothing staged is recognised, in the
/// tool's English and Portuguese wording.
pub open spec fn nothing_to_commit(stderr: Seq<char>) -> bool {
    contains(stderr, "nothing to commit"@) || contains(stderr, "no changes added to commit"@)
        || contains(stderr, "nada para submeter"@)
        || contains(stderr, "nenhuma alteração adicionada ao commit"@)
}

/// Whether the operation succeeded with the process output `out`.
pub open spec fn op_succeeds(op: Operation, out: CommandOutput) -> bool {
    out.success || !op_checked(op) || (op is Commit && nothing_to_commit(out.stderr@))
}

pub fn concat(a: &str, b: &str) -> (r: String)
    ensures
        r@ == a@ + b@,
{
    let mut s = String::new();
    s.append(a);
    s.append(b);
    assert(s@ =~= a@ + b@);
    s
}

fn s(t: &str) -> (r: String)
    ensures
        r@ == t@,
{
    t.to_string()
}

/// Whether `stderr` reports that there was nothing to commit.
pub fn is_nothing_to_commit(stderr: &str) -> (r: bool)
    ensures
        r == nothing_to_commit(stderr@),
{
    let v = chars_of(stderr);
    contains_in(&v, &chars_of("nothing to commit")) || contains_in(&v, &chars_of("no changes added to commit"))
        || contains_in(&v, &chars_of("nada para submeter"))
        || contains_in(&v, &chars_of("nenhuma alteração adicionada ao commit"))
}

impl Operation {
    /// The command line of the operation.
    pub fn args(&self) -> (r: Vec<String>)
        ensures
            arg_views(r@) == op_args(*self),
    {
        let r = match self {
            Operation::Fetch => vec![s("fetch"), s("--all")],
            Operation::Pull => vec![s("pull")],
            Operation::StageFile(f) => vec![s("add"), f.clone()],
            Operation::UnstageFile(f) => vec![s("reset"), s("HEAD"), s("--"), f.clone()],
            Operation::Commit(m) => vec![s("commit"), s("-m"), m.clone()],
            Operation::UndoCommit => vec![s("reset"), s("--soft"), s("HEAD~1")],
            Operation::Checkout(b) => vec![s("checkout"), b.clone()],
            Operation::CreateBranch(b) => vec![s("checkout"), s("-b"), b.clone()],
            Operation::CreateBranchFromCommit(b, h) => vec![s("branch"), b.clone(), h.clone()],
            Operation::CheckoutCommit(h) => vec![s("checkout"), h.clone()],
            Operation::RevertCommit(h) => vec![s("revert"), s("--no-edit"), h.clone()],
            Operation::ResetToCommit(h) => vec![s("reset"), h.clone()],
            Operation::CherryPickCommit(h) => vec![s("cherry-pick"), h.clone()],
            Operation::Init => vec![s("init")],
            Operation::RemoteAdd(n, u) => vec![s("remote"), s("add"), n.clone(), u.clone()],
            Operation::RemoteSetUrl(n, u) => vec![s("remote"), s("set-url"), n.clone(), u.clone()],
            Operation::Clone(u, p) => vec![s("clone"), u.clone(), p.clone()],
            Operation::ContinueRebase => vec![s("rebase"), s("--continue")],
            Operation::ContinueMerge => vec![s("merge"), s("--continue")],
            Operation::AbortRebase => vec![s("rebase"), s("--abort")],
            Operation::AbortMerge => vec![s("merge"), s("--abort")],
            Operation::RestoreStaged(f) => vec![s("restore"), s("--staged"), s("--worktree"), s("--"), f.clone()],
            Operation::RestoreWorktree(f) => vec![s("restore"), s("--"), f.clone()],
            Operation::CleanPath(f) => vec![s("clean"), s("-f"), s("--"), f.clone()],
        };
        assert(arg_views(r@) =~= op_args(*self));
        r
    }

    /// The command that the operation's error names.
    pub fn label(&self) -> (r: String)
        ensures
            r@ == op_label(*self),
    {
        crate::executor::join_args(&self.args())
    }

    /// The operation's result from the outcome of its command: the error of a
    /// command that could not start, success when `op_succeeds`, else the
    /// tool's error text under the operation's label and exit code.
    pub fn finish(&self, run: GitResult<CommandOutput>) -> (r: GitResult<()>)
        ensures
            match run {
                Err(e) => r == Err::<(), GitError>(e),
                Ok(out) => if op_succeeds(*self, out) {
                    r is Ok
                } else {
                    r matches Err(e) && e.message@ == out.stderr@ && e.command@ == op_label(*self)
                        && e.exit_code == out.exit_code
                },
            },
    {
        match run {
            Err(e) => Err(e),
            Ok(out) => {
                let checked = match self {
                    Operation::RestoreStaged(_) | Operation::RestoreWorktree(_) | Operation::CleanPath(_) => false,
                    _ => true,
                };
                if out.success || !checked {
                    return Ok(());
                }
                if let Operation::Commit(_) = self {
                    if is_nothing_to_commit(out.stderr.as_str()) {
                        return Ok(());
                    }
                }
                Err(GitError::from_output(&out, self.label()))
            },
        }
    }
}

/// The operation that goes on with a rebase, when one is in progress, else with a merge.
pub fn continue_operation(rebase_in_progress: bool) -> (r: Operation)
    ensures
        rebase_in_progress ==> r is ContinueRebase,
        !rebase_in_progress ==> r is ContinueMerge,
{
    if rebase_in_progress { Operation::ContinueRebase } else { Operation::ContinueMerge }
}

/// The operation that stops a rebase, when one is in progress, else a merge.
pub fn abort_operation(rebase_in_progress: bool) -> (r: Operation)
    ensures
        rebase_in_progress ==> r is AbortRebase,
        !rebase_in_progress ==> r is AbortMerge,
{
    if rebase_in_progress { Operation::AbortRebase } else { Operation::AbortMerge }
}

/// Whether a rebase is in progress, from whether the marker paths
/// `rebase-apply` and `rebase-merge` exist in the repository's metadata
/// directory; when neither does, a merge is what goes on or stops.
pub fn rebase_in_progress(rebase_apply: bool, rebase_merge: bool) -> (r: bool)
    ensures
        r == (rebase_apply || rebase_merge),
{
    rebase_apply || rebase_merge
}

/// Whether a rebase or a merge is in progress, from which of the marker paths
/// `rebase-apply`, `rebase-merge`, `MERGE_HEAD` and `REBASE_HEAD` exist in the
/// repository's metadata directory.
pub fn rebase_or_merge_in_progress(rebase_apply: bool, rebase_merge: bool, merge_head: bool, rebase_head: bool) -> (r: bool)
    ensures
        r == (rebase_apply || rebase_merge || merge_head || rebase_head),
{
    rebase_apply || rebase_merge || merge_head || rebase_head
}

/// The best-effort steps that discard a path's changes, tracked or not. Their
/// outcomes are ignored and discarding always succeeds.
pub fn discard_operations(file: &String) -> (r: Vec<Operation>)
    ensures
        r@.len() == 3,
        r@[0] matches Operation::RestoreStaged(f) && f@ == file@,
        r@[1] matches Operation::RestoreWorktree(f) && f@ == file@,
        r@[2] matches Operation::CleanPath(f) && f@ == file@,
{
    vec![Operation::RestoreStaged(file.clone()), Operation::RestoreWorktree(file.clone()), Operation::CleanPath(file.clone())]
}

/// What to do next in an operation of several commands: run a command line
/// and come back in stage `S` with its outcome, or stop with a result.
#[derive(Debug)]
pub enum Step<S, T> {
    Run(Vec<String>, S),
    Done(GitResult<T>),
}

/// The stages of a push.
#[derive(Clone, Debug)]
pub enum PushStage {
    /// A plain push.
    Plain,
    /// Looking up the current branch after a push that had no upstream; holds
    /// that push's error.
    BranchLookup(GitError),
    /// Looking up the current branch for a first push.
    InitialLookup,
    /// Pushing the branch while setting its upstream.
    Upstream(String),
}

pub open spec fn rev_parse_head() -> Seq<Seq<char>> {
    seq!["rev-parse"@, "--abbrev-ref"@, "HEAD"@]
}

/// Error text of a push that has nowhere to go.
pub open spec fn lacks_upstream(stderr: Seq<char>) -> bool {
    contains(stderr, "has no upstream branch"@) || contains(stderr, "no configured push destination"@)
}

fn rev_parse_args() -> (r: Vec<String>)
    ensures
        arg_views(r@) == rev_parse_head(),
{
    let r = vec![s("rev-parse"), s("--abbrev-ref"), s("HEAD")];
    assert(arg_views(r@) =~= rev_parse_head());
    r
}

fn upstream_args(branch: &String) -> (r: Vec<String>)
    ensures
        arg_views(r@) == seq!["push"@, "-u"@, "origin"@, branch@],
{
    let r = vec![s("push"), s("-u"), s("origin"), branch.clone()];
    assert(arg_views(r@) =~= seq!["push"@, "-u"@, "origin"@, branch@]);
    r
}

/// The first step of a push.
pub fn push_start() -> (r: Step<PushStage, ()>)
    ensures
        r matches Step::Run(a, PushStage::Plain) && arg_views(a@) == seq!["push"@],
{
    let a = vec![s("push")];
    assert(arg_views(a@) =~= seq!["push"@]);
    Step::Run(a, PushStage::Plain)
}

/// The first step of a first push, which sets the current branch's upstream.
pub fn push_initial_start() -> (r: Step<PushStage, ()>)
    ensures
        r matches Step::Run(a, PushStage::InitialLookup) && arg_views(a@) == rev_parse_head(),
{
    Step::Run(rev_parse_args(), PushStage::InitialLookup)
}

/// The step of a push that follows the outcome `run` of stage `stage`.
///
/// A plain push refused for want of an upstream looks up the current branch
/// and pushes it once more while setting its upstream; that second push is
/// the last command, and its failure, not the first one, is the result. When
/// the branch cannot be looked up, the first failure is the result.
pub fn push_next(stage: PushStage, run: GitResult<CommandOutput>) -> (r: Step<PushStage, ()>)
    ensures
        stage is Plain ==> match run {
            Err(e) => r matches Step::Done(Err(f)) && f == e,
            Ok(out) => if out.success {
                r matches Step::Done(Ok(_))
            } else if lacks_upstream(out.stderr@) {
                r matches Step::Run(a, PushStage::BranchLookup(first)) && arg_views(a@) == rev_parse_head()
                    && first.message@ == out.stderr@ && first.command@ == "push"@
                    && first.exit_code == out.exit_code
            } else {
                r matches Step::Done(Err(f)) && f.message@ == out.stderr@ && f.command@ == "push"@
                    && f.exit_code == out.exit_code
            },
        },
        stage matches PushStage::BranchLookup(first) ==> match run {
            Ok(out) => if out.success {
                r matches Step::Run(a, PushStage::Upstream(b)) && b@ == trim_end(out.stdout@)
                    && arg_views(a@) == seq!["push"@, "-u"@, "origin"@, b@]
            } else {
                r matches Step::Done(Err(f)) && f == first
            },
            Err(_) => r matches Step::Done(Err(f)) && f == first,
        },
        stage is InitialLookup ==> match run {
            Ok(out) => if out.success {
                r matches Step::Run(a, PushStage::Upstream(b)) && b@ == trim_end(out.stdout@)
                    && arg_views(a@) == seq!["push"@, "-u"@, "origin"@, b@]
            } else {
                r matches Step::Run(a, PushStage::Upstream(b)) && b@ == "main"@
                    && arg_views(a@) == seq!["push"@, "-u"@, "origin"@, b@]
            },
            Err(_) => r matches Step::Run(a, PushStage::Upstream(b)) && b@ == "main"@
                && arg_views(a@) == seq!["push"@, "-u"@, "origin"@, b@],
        },
        stage matches PushStage::Upstream(b) ==> match run {
            Err(e) => r matches Step::Done(Err(f)) && f == e,
            Ok(out) => if out.success {
                r matches Step::Done(Ok(_))
            } else {
                r matches Step::Done(Err(f)) && f.message@ == out.stderr@
                    && f.command@ == "push -u origin "@ + b@ && f.exit_code == out.exit_code
            },
        },
{
    match stage {
        PushStage::Plain => match run {
            Err(e) => Step::Done(Err(e)),
            Ok(out) => {
                if out.success {
                    return Step::Done(Ok(()));
                }
                let first = GitError::from_output(&out, s("push"));
                let v = chars_of(out.stderr.as_str());
                if contains_in(&v, &chars_of("has no upstream branch"))
                    || contains_in(&v, &chars_of("no configured push destination")) {
                    Step::Run(rev_parse_args(), PushStage::BranchLookup(first))
                } else {
                    Step::Done(Err(first))
                }
            },
        },
        PushStage::BranchLookup(first) => match run {
            Ok(out) => match string_result(&out, &rev_parse_args()) {
                Ok(b) => Step::Run(upstream_args(&b), PushStage::Upstream(b)),
                Err(_) => Step::Done(Err(first)),
            },
            Err(_) => Step::Done(Err(first)),
        },
        PushStage::InitialLookup => {
            let b = match run {
                Ok(out) => match string_result(&out, &rev_parse_args()) {
                    Ok(b) => b,
                    Err(_) => s("main"),
                },
                Err(_) => s("main"),
            };
            Step::Run(upstream_args(&b), PushStage::Upstream(b))
        },
        PushStage::Upstream(b) => match run {
            Err(e) => Step::Done(Err(e)),
            Ok(out) => {
                if out.success {
                    Step::Done(Ok(()))
                } else {
                    Step::Done(Err(GitError::from_output(&out, concat("push -u origin ", b.as_str()))))
                }
            },
        },
    }
}

/// The stages of resolving a conflict.
#[derive(Clone, Debug)]
pub enum ResolveStage {
    /// Checking out one side's version; holds `--ours` or `--theirs`.
    CheckoutSide(String),
    /// Marking the path resolved.
    MarkResolved,
}

/// The first step of resolving `file` with `resolution`, which must be `ours`
/// or `theirs`; any other value fails before any command runs.
pub fn resolve_start(file: &String, resolution: &str) -> (r: Step<ResolveStage, ()>)
    ensures
        resolution@ == "ours"@ ==> (r matches Step::Run(a, ResolveStage::CheckoutSide(side))
            && side@ == "--ours"@ && arg_views(a@) == seq!["checkout"@, "--ours"@, "--"@, file@]),
        resolution@ == "theirs"@ ==> (r matches Step::Run(a, ResolveStage::CheckoutSide(side))
            && side@ == "--theirs"@ && arg_views(a@) == seq!["checkout"@, "--theirs"@, "--"@, file@]),
        resolution@ != "ours"@ && resolution@ != "theirs"@ ==> (r matches Step::Done(Err(e))
            && e.message@ == "Invalid resolution"@ && e.command@ == "resolve_conflict"@ && e.exit_code is None),
{
    proof {
        reveal_strlit("ours");
        reveal_strlit("theirs");
        assert("ours"@[0] != "theirs"@[0]);
    }
    let side = if same_text(resolution, "ours") {
        s("--ours")
    } else if same_text(resolution, "theirs") {
        s("--theirs")
    } else {
        return Step::Done(Err(GitError { message: s("Invalid resolution"), command: s("resolve_conflict"), exit_code: None }));
    };
    let a = vec![s("checkout"), side.clone(), s("--"), file.clone()];
    assert(arg_views(a@) =~= seq!["checkout"@, side@, "--"@, file@]);
    Step::Run(a, ResolveStage::CheckoutSide(side))
}

/// The step of resolving `file` that follows the outcome `run` of `stage`:
/// after the checkout the path is added to mark it resolved, and each of the
/// two commands fails the resolution when it fails.
pub fn resolve_next(stage: ResolveStage, file: &String, run: GitResult<CommandOutput>) -> (r: Step<ResolveStage, ()>)
    ensures
        stage matches ResolveStage::CheckoutSide(side) ==> match run {
            Err(e) => r matches Step::Done(Err(f)) && f == e,
            Ok(out) => if out.success {
                r matches Step::Run(a, ResolveStage::MarkResolved) && arg_views(a@) == seq!["add"@, file@]
            } else {
                r matches Step::Done(Err(f)) && f.message@ == out.stderr@
                    && f.command@ == "checkout "@ + side@ + " -- "@ + file@ && f.exit_code == out.exit_code
            },
        },
        stage is MarkResolved ==> match run {
            Err(e) => r matches Step::Done(Err(f)) && f == e,
            Ok(out) => if out.success {
                r matches Step::Done(Ok(_))
            } else {
                r matches Step::Done(Err(f)) && f.message@ == out.stderr@
                    && f.command@ == "add "@ + file@ && f.exit_code == out.exit_code
            },
        },
{
    match stage {
        ResolveStage::CheckoutSide(side) => match run {
            Err(e) => Step::Done(Err(e)),
            Ok(out) => {
                if out.success {
                    let a = vec![s("add"), file.clone()];
                    assert(arg_views(a@) =~= seq!["add"@, file@]);
                    Step::Run(a, ResolveStage::MarkResolved)
                } else {
                    let mut label = concat("checkout ", side.as_str());
                    label.append(" -- ");
                    label.append(file.as_str());
                    assert(label@ =~= "checkout "@ + side@ + " -- "@ + file@);
                    Step::Done(Err(GitError::from_output(&out, label)))
                }
            },
        },
        ResolveStage::MarkResolved => match run {
            Err(e) => Step::Done(Err(e)),
            Ok(out) => {
                if out.success {
                    Step::Done(Ok(()))
                } else {
                    Step::Done(Err(GitError::from_output(&out, concat("add ", file.as_str()))))
                }
            },
        },
    }
}

/// The stages of reading a file's diff.
#[derive(Clone, Copy, Debug, PartialEq, Eq, Structural)]
pub enum DiffStage {
    Unstaged,
    Staged,
}

pub open spec fn diff_args(staged: bool, file: Seq<char>) -> Seq<Seq<char>> {
    if staged {
        seq!["diff"@, "--cached"@, "--no-color"@, "--"@, file]
    } else {
        seq!["diff"@, "--no-color"@, "--"@, file]
    }
}

fn diff_command(staged: bool, file: &String) -> (r: Vec<String>)
    ensures
        arg_views(r@) == diff_args(staged, file@),
{
    let r = if staged {
        vec![s("diff"), s("--cached"), s("--no-color"), s("--"), file.clone()]
    } else {
        vec![s("diff"), s("--no-color"), s("--"), file.clone()]
    };
    assert(arg_views(r@) =~= diff_args(staged, file@));
    r
}

/// The first step of reading the diff of `file`: its unstaged changes.
pub fn file_diff_start(file: &String) -> (r: Step<DiffStage, String>)
    ensures
        r matches Step::Run(a, DiffStage::Unstaged) && arg_views(a@) == diff_args(false, file@),
{
    Step::Run(diff_command(false, file), DiffStage::Unstaged)
}

/// The step of reading the diff of `file` after `stage`: an empty unstaged diff
/// is followed by the staged one.
pub fn file_diff_next(stage: DiffStage, file: &String, run: GitResult<CommandOutput>) -> (r: Step<DiffStage, String>)
    ensures
        match run {
            Err(e) => r matches Step::Done(Err(f)) && f == e,
            Ok(out) => if !out.success {
                r matches Step::Done(Err(f)) && f.message@ == out.stderr@
                    && f.command@ == joined(diff_args(stage == DiffStage::Staged, file@))
                    && f.exit_code == out.exit_code
            } else if stage == DiffStage::Unstaged && trim_end(out.stdout@).len() == 0 {
                r matches Step::Run(a, DiffStage::Staged) && arg_views(a@) == diff_args(true, file@)
            } else {
                r matches Step::Done(Ok(d)) && d@ == trim_end(out.stdout@)
            },
        },
{
    match run {
        Err(e) => Step::Done(Err(e)),
        Ok(out) => {
            let staged = stage == DiffStage::Staged;
            let a = diff_command(staged, file);
            match string_result(&out, &a) {
                Err(e) => Step::Done(Err(e)),
                Ok(d) => {
                    if !staged && d.as_str().is_empty() {
                        Step::Run(diff_command(true, file), DiffStage::Staged)
                    } else {
                        Step::Done(Ok(d))
                    }
                },
            }
        },
    }
}

/// A command that reads from a repository.
#[derive(Clone, Debug)]
pub enum ReadQuery {
    /// Short-form status.
    Porcelain,
    /// Commit counts left and right of upstream.
    Tracking,
    /// All branches, formatted as `refname<TAB>head-marker<TAB>upstream`.
    BranchList,
    /// The 50 latest commits, formatted as six tab-separated fields.
    History,
    /// The name-status listing of one commit.
    CommitFiles(String),
    /// One file's changes in one commit: commit, then path.
    CommitFileDiff(String, String),
    /// The URL of the `origin` remote.
    RemoteUrl,
}

pub open spec fn read_args(q: ReadQuery) -> Seq<Seq<char>> {
    match q {
        ReadQuery::Porcelain => seq!["status"@, "--porcelain=v1"@],
        ReadQuery::Tracking => seq!["rev-list"@, "--left-right"@, "--count"@, "@{upstream}...HEAD"@],
        ReadQuery::BranchList => seq!["branch"@, "-a"@, "--format=%(refname)\t%(HEAD)\t%(upstream:short)"@],
        ReadQuery::History => seq!["log"@, "-n"@, "50"@, "--date=iso-strict"@, "--format=%H\t%h\t%an\t%ae\t%ad\t%s"@],
        ReadQuery::CommitFiles(h) => seq!["show"@, "--name-status"@, "--oneline"@, h@],
        ReadQuery::CommitFileDiff(h, f) => seq!["diff"@, "--no-color"@, h@ + "~1"@, h@, "--"@, f@],
        ReadQuery::RemoteUrl => seq!["remote"@, "get-url"@, "origin"@],
    }
}

impl ReadQuery {
    /// The command line of the query.
    pub fn args(&self) -> (r: Vec<String>)
        ensures
            arg_views(r@) == read_args(*self),
    {
        let r = match self {
            ReadQuery::Porcelain => vec![s("status"), s("--porcelain=v1")],
            ReadQuery::Tracking => vec![s("rev-list"), s("--left-right"), s("--count"), s("@{upstream}...HEAD")],
            ReadQuery::BranchList => vec![s("branch"), s("-a"), s("--format=%(refname)\t%(HEAD)\t%(upstream:short)")],
            ReadQuery::History => vec![s("log"), s("-n"), s("50"), s("--date=iso-strict"), s("--format=%H\t%h\t%an\t%ae\t%ad\t%s")],
            ReadQuery::CommitFiles(h) => vec![s("show"), s("--name-status"), s("--oneline"), h.clone()],
            ReadQuery::CommitFileDiff(h, f) => vec![s("diff"), s("--no-color"), concat(h.as_str(), "~1"), h.clone(), s("--"), f.clone()],
            ReadQuery::RemoteUrl => vec![s("remote"), s("get-url"), s("origin")],
        };
        assert(arg_views(r@) =~= read_args(*self));
        r
    }
}

} // verus!
