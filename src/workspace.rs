//! Workspaces: named groups of repositories.
use vstd::prelude::*;
use crate::number::{decimal, decimal_string};
use crate::text::same_text;
use crate::types::string_views;

verus! {

/// A named group of repository paths.
#[derive(Clone, Debug)]
pub struct Workspace {
    pub id: String,
    pub name: String,
    pub repositories: Vec<String>,
    pub color: Option<String>,
    pub created_at: String,
}

/// What the workspace file holds.
#[derive(Clone, Debug)]
pub struct WorkspaceConfig {
    pub version: u32,
    pub workspaces: Vec<Workspace>,
}

/// Relies on `uuid::Uuid::new_v4` and its text form, which is hyphenated:
/// 36 characters.
#[verifier::external_body]
fn new_id() -> (r: String)
    ensures
        r@.len() == 36,
{
    uuid::Uuid::new_v4().to_string()
}

/// Relies on `std::time::SystemTime::now` and its `duration_since(UNIX_EPOCH)`:
/// the whole seconds since the Unix epoch, or none when the clock reads
/// earlier than the epoch.
#[verifier::external_body]
pub(crate) fn seconds_since_epoch() -> (r: Option<u64>) {
    match std::time::SystemTime::now().duration_since(std::time::UNIX_EPOCH) {
        Ok(d) => Some(d.as_secs()),
        Err(_) => None,
    }
}

/// The seconds since the Unix epoch, in decimal; a clock that reads before
/// the epoch counts as zero.
pub fn timestamp_text(since_epoch: Option<u64>) -> (r: String)
    ensures
        r@ == decimal(match since_epoch {
            Some(s) => s as nat,
            None => 0,
        }),
{
    let s: u64 = match since_epoch {
        Some(s) => s,
        None => 0,
    };
    decimal_string(s)
}

/// The current time as seconds since the Unix epoch, in decimal.
pub fn chrono_now() -> (r: String)
    ensures
        exists|n: nat| r@ == decimal(n),
{
    timestamp_text(seconds_since_epoch())
}

impl Workspace {
    /// A new, empty workspace with a fresh identifier, created now.
    pub fn new(name: String) -> (r: Workspace)
        ensures
            r.name@ == name@,
            r.id@.len() == 36,
            r.repositories@.len() == 0,
            r.color is None,
            exists|n: nat| r.created_at@ == decimal(n),
    {
        Workspace { id: new_id(), name, repositories: Vec::new(), color: None, created_at: chrono_now() }
    }
}

impl WorkspaceConfig {
    /// The file contents for `workspaces`, at the current format version.
    pub fn new(workspaces: Vec<Workspace>) -> (r: WorkspaceConfig)
        ensures
            r.version == 1,
            r.workspaces@ == workspaces@,
    {
        WorkspaceConfig { version: 1, workspaces }
    }
}

/// The first position of a workspace with this identifier.
pub open spec fn workspace_position(ws: Seq<Workspace>, id: Seq<char>, i: int) -> Option<int>
    decreases ws.len() - i,
{
    if i < 0 || i >= ws.len() {
        None
    } else if ws[i].id@ == id {
        Some(i)
    } else {
        workspace_position(ws, id, i + 1)
    }
}

fn find_workspace(ws: &Vec<Workspace>, id: &str) -> (r: Option<usize>)
    ensures
        r matches Some(k) ==> workspace_position(ws@, id@, 0) == Some(k as int) && k < ws@.len(),
        r is None ==> workspace_position(ws@, id@, 0) is None,
{
    let mut i: usize = 0;
    while i < ws.len()
        invariant
            i <= ws.len(),
            workspace_position(ws@, id@, 0) == workspace_position(ws@, id@, i as int),
        decreases ws.len() - i,
    {
        if same_text(ws[i].id.as_str(), id) {
            return Some(i);
        }
        i += 1;
    }
    None
}

fn has_path(v: &Vec<String>, p: &str) -> (r: bool)
    ensures
        r == string_views(v@).contains(p@),
{
    let mut i: usize = 0;
    while i < v.len()
        invariant
            i <= v.len(),
            forall|j: int| 0 <= j < i ==> v@[j]@ != p@,
        decreases v.len() - i,
    {
        if same_text(v[i].as_str(), p) {
            assert(string_views(v@)[i as int] == p@);
            return true;
        }
        i += 1;
    }
    assert(!string_views(v@).contains(p@)) by {
        if string_views(v@).contains(p@) {
            let j = choose|j: int| 0 <= j < v@.len() && string_views(v@)[j] == p@;
            assert(v@[j]@ == p@);
        }
    }
    false
}

/// Adds `repo_path` to the workspace with identifier `workspace_id` unless it
/// is there already; fails when there is no such workspace.
pub fn add_repository(workspaces: &mut Vec<Workspace>, workspace_id: &str, repo_path: &str) -> (r: Result<(), String>)
    ensures
        workspace_position(old(workspaces)@, workspace_id@, 0) is None ==> ({
            &&& r matches Err(m) && m@ == "Workspace not found"@
            &&& final(workspaces)@ == old(workspaces)@
        }),
        workspace_position(old(workspaces)@, workspace_id@, 0) matches Some(k) ==> ({
            let w = old(workspaces)@[k];
            let paths = string_views(w.repositories@);
            &&& r is Ok
            &&& final(workspaces)@.len() == old(workspaces)@.len()
            &&& forall|j: int| 0 <= j < old(workspaces)@.len() && j != k
                ==> #[trigger] final(workspaces)@[j] == old(workspaces)@[j]
            &&& final(workspaces)@[k].id == w.id
            &&& final(workspaces)@[k].name == w.name
            &&& final(workspaces)@[k].color == w.color
            &&& final(workspaces)@[k].created_at == w.created_at
            &&& string_views(final(workspaces)@[k].repositories@) == if paths.contains(repo_path@) {
                paths
            } else {
                paths.push(repo_path@)
            }
        }),
{
    match find_workspace(workspaces, workspace_id) {
        None => Err("Workspace not found".to_string()),
        Some(k) => {
            let mut w = workspaces.remove(k);
            let ghost w0 = w;
            let ghost paths = string_views(w0.repositories@);
            if !has_path(&w.repositories, repo_path) {
                w.repositories.push(repo_path.to_string());
                assert(string_views(w.repositories@) =~= paths.push(repo_path@));
            }
            workspaces.insert(k, w);
            assert(forall|j: int| 0 <= j < old(workspaces)@.len() && j != k
                ==> #[trigger] workspaces@[j] == old(workspaces)@[j]);
            Ok(())
        },
    }
}

/// Removes the workspace with identifier `workspace_id`; fails when there is
/// no such workspace.
pub fn remove_workspace(workspaces: &mut Vec<Workspace>, workspace_id: &str) -> (r: Result<(), String>)
    ensures
        workspace_position(old(workspaces)@, workspace_id@, 0) is None ==> ({
            &&& r matches Err(m) && m@ == "Workspace not found"@
            &&& final(workspaces)@ == old(workspaces)@
        }),
        workspace_position(old(workspaces)@, workspace_id@, 0) matches Some(k) ==> ({
            &&& r is Ok
            &&& final(workspaces)@ == old(workspaces)@.remove(k)
        }),
{
    match find_workspace(workspaces, workspace_id) {
        None => Err("Workspace not found".to_string()),
        Some(k) => {
            workspaces.remove(k);
            Ok(())
        },
    }
}

} // verus!
