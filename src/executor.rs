//! What a run of the version-control tool gives back, and the errors made from it.
use vstd::prelude::*;
use vstd::string::*;
use crate::number::{push_signed_decimal, signed_decimal};
use crate::text::{chars_of, push_char, string_from, trim_end, trim_end_vec};

verus! {

/// A failed command: the tool's error text, the command line, and its exit code.
#[derive(Clone, Debug)]
pub struct GitError {
    pub message: String,
    pub command: String,
    pub exit_code: Option<i32>,
}

pub type GitResult<T> = Result<T, GitError>;

/// The outcome of a process that ran to its end.
#[derive(Clone, Debug)]
pub struct CommandOutput {
    pub success: bool,
    pub exit_code: Option<i32>,
    pub stdout: String,
    pub stderr: String,
}

/// How an error reads when shown to a user.
pub open spec fn error_text(command: Seq<char>, exit_code: Option<i32>, message: Seq<char>) -> Seq<char> {
    match exit_code {
        Some(c) => "Git error ("@ + command + ") [exit "@ + signed_decimal(c as int) + "]: "@ + message,
        None => "Git error ("@ + command + "): "@ + message,
    }
}

impl GitError {
    /// The error as text for a user.
    pub fn to_string(&self) -> (r: String)
        ensures
            r@ == error_text(self.command@, self.exit_code, self.message@),
    {
        let mut s = String::new();
        s.append("Git error (");
        s.append(self.command.as_str());
        match self.exit_code {
            Some(c) => {
                s.append(") [exit ");
                push_signed_decimal(&mut s, c as i64);
                s.append("]: ");
            },
            None => {
                s.append("): ");
            },
        }
        s.append(self.message.as_str());
        assert(s@ =~= error_text(self.command@, self.exit_code, self.message@));
        s
    }

    /// The error for a command that failed with `out`.
    pub fn from_output(out: &CommandOutput, command: String) -> (e: GitError)
        ensures
            e.message@ == out.stderr@,
            e.command@ == command@,
            e.exit_code == out.exit_code,
    {
        GitError { message: out.stderr.clone(), command, exit_code: out.exit_code }
    }
}

/// Words joined with single spaces.
pub open spec fn joined(parts: Seq<Seq<char>>) -> Seq<char>
    decreases parts.len(),
{
    if parts.len() == 0 {
        Seq::empty()
    } else if parts.len() == 1 {
        parts[0]
    } else {
        joined(parts.drop_last()) + seq![' '] + parts.last()
    }
}

/// The command line of `args`, as an error names it.
pub fn join_args(args: &Vec<String>) -> (r: String)
    ensures
        r@ == joined(args@.map_values(|a: String| a@)),
{
    let ghost views = args@.map_values(|a: String| a@);
    let mut s = String::new();
    let mut i: usize = 0;
    while i < args.len()
        invariant
            i <= args.len(),
            views == args@.map_values(|a: String| a@),
            s@ == joined(views.subrange(0, i as int)),
        decreases args.len() - i,
    {
        if i > 0 {
            push_char(&mut s, ' ');
        }
        s.append(args[i].as_str());
        assert(views.subrange(0, i + 1).drop_last() == views.subrange(0, i as int));
        i += 1;
    }
    assert(views.subrange(0, args@.len() as int) == views);
    s
}

/// The error for a command that could not be started.
pub fn spawn_failure(args: &Vec<String>, reason: &str) -> (e: GitError)
    ensures
        e.message@ == "Failed to execute git: "@ + reason@,
        e.command@ == joined(args@.map_values(|a: String| a@)),
        e.exit_code is None,
{
    let mut m = String::new();
    m.append("Failed to execute git: ");
    m.append(reason);
    assert(m@ =~= "Failed to execute git: "@ + reason@);
    GitError { message: m, command: join_args(args), exit_code: None }
}

/// A command's standard output without trailing whitespace, or the error it failed with.
pub fn string_result(out: &CommandOutput, args: &Vec<String>) -> (r: GitResult<String>)
    ensures
        out.success ==> (r matches Ok(s) && s@ == trim_end(out.stdout@)),
        !out.success ==> (r matches Err(e) && e.message@ == out.stderr@
            && e.command@ == joined(args@.map_values(|a: String| a@))
            && e.exit_code == out.exit_code),
{
    if out.success {
        let v = chars_of(out.stdout.as_str());
        Ok(string_from(&trim_end_vec(&v)))
    } else {
        Err(GitError::from_output(out, join_args(args)))
    }
}

} // verus!
