//! Values that describe a repository's state.
use vstd::prelude::*;

verus! {

/// What happened to a file.
#[derive(Clone, Copy, Debug, PartialEq, Eq, Structural)]
pub enum FileStatus {
    Added,
    Modified,
    Deleted,
    Renamed,
    Copied,
    Conflicted,
}

/// A changed file in the repository.
#[derive(Clone, Debug)]
pub struct FileChange {
    pub path: String,
    pub status: FileStatus,
}

impl View for FileChange {
    type V = (Seq<char>, FileStatus);

    open spec fn view(&self) -> (Seq<char>, FileStatus) {
        (self.path@, self.status)
    }
}

/// The views of a list of file changes.
pub open spec fn change_views(v: Seq<FileChange>) -> Seq<(Seq<char>, FileStatus)> {
    v.map_values(|c: FileChange| c@)
}

/// The views of a list of strings.
pub open spec fn string_views(v: Seq<String>) -> Seq<Seq<char>> {
    v.map_values(|s: String| s@)
}

/// Status of a repository: its branch, how far it is from upstream, and its changed files.
#[derive(Clone, Debug)]
pub struct RepositoryStatus {
    pub branch: String,
    pub is_clean: bool,
    pub ahead: u32,
    pub behind: u32,
    pub staged: Vec<FileChange>,
    pub unstaged: Vec<FileChange>,
    pub untracked: Vec<String>,
    pub conflicts: Vec<FileChange>,
}

impl RepositoryStatus {
    /// A status is clean exactly when it lists no change of any kind.
    pub open spec fn well_formed(&self) -> bool {
        self.is_clean == (self.staged@.len() == 0 && self.unstaged@.len() == 0
            && self.untracked@.len() == 0 && self.conflicts@.len() == 0)
    }
}

impl Default for RepositoryStatus {
    fn default() -> (r: RepositoryStatus)
        ensures
            r.branch@ == "unknown"@,
            r.is_clean,
            r.ahead == 0,
            r.behind == 0,
            r.staged@.len() == 0,
            r.unstaged@.len() == 0,
            r.untracked@.len() == 0,
            r.conflicts@.len() == 0,
            r.well_formed(),
    {
        RepositoryStatus {
            branch: "unknown".to_string(),
            is_clean: true,
            ahead: 0,
            behind: 0,
            staged: Vec::new(),
            unstaged: Vec::new(),
            untracked: Vec::new(),
            conflicts: Vec::new(),
        }
    }
}

/// A branch, local or remote.
#[derive(Clone, Debug)]
pub struct Branch {
    pub name: String,
    pub is_current: bool,
    pub is_remote: bool,
    pub upstream: Option<String>,
}

pub open spec fn opt_view(o: Option<String>) -> Option<Seq<char>> {
    match o {
        Some(s) => Some(s@),
        None => None,
    }
}

impl View for Branch {
    type V = (Seq<char>, bool, bool, Option<Seq<char>>);

    open spec fn view(&self) -> (Seq<char>, bool, bool, Option<Seq<char>>) {
        (self.name@, self.is_current, self.is_remote, opt_view(self.upstream))
    }
}

/// One commit of a history.
#[derive(Clone, Debug)]
pub struct CommitInfo {
    pub hash: String,
    pub short_hash: String,
    pub message: String,
    pub author: String,
    pub email: String,
    pub timestamp: String,
}

} // verus!

verus! {

impl View for CommitInfo {
    /// Hash, short hash, message, author, email, timestamp.
    type V = (Seq<char>, Seq<char>, Seq<char>, Seq<char>, Seq<char>, Seq<char>);

    open spec fn view(&self) -> Self::V {
        (self.hash@, self.short_hash@, self.message@, self.author@, self.email@, self.timestamp@)
    }
}

} // verus!
