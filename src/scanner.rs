//! Finding repositories under a directory, to a bounded depth.
use vstd::prelude::*;
use crate::sorting::{chars_le, keyed_views, sort_by_keys, sort_keyed, values_of};
use crate::text::{chars_of, lowercase_of, same_text, to_lowercase};
use crate::types::CommitInfo;

verus! {

/// A repository found on disk.
#[derive(Clone, Debug)]
pub struct Repository {
    pub path: String,
    pub name: String,
    pub remote_url: Option<String>,
    pub last_commit: Option<CommitInfo>,
}

impl Repository {
    /// The repository at `path`, named after its directory, or `unknown` when
    /// the directory has no name; its latest commit is not read.
    pub fn new(path: String, dir_name: Option<String>, remote_url: Option<String>) -> (r: Repository)
        ensures
            r.path@ == path@,
            r.name@ == match dir_name {
                Some(n) => n@,
                None => "unknown"@,
            },
            r.remote_url == remote_url,
            r.last_commit is None,
    {
        let name = match dir_name {
            Some(n) => n,
            None => "unknown".to_string(),
        };
        Repository { path, name, remote_url, last_commit: None }
    }
}

/// What is kept of a repository between scans.
#[derive(Clone, Debug)]
pub struct RepositoryMetadata {
    pub path: String,
    pub name: String,
    pub remote_url: Option<String>,
    pub last_modified: u64,
}

/// How deep below the scanned directory a repository is looked for.
pub const MAX_SCAN_DEPTH: u32 = 4;

/// Directory names that are never entered: hidden ones, and those that hold
/// dependencies, build output or caches.
pub open spec fn skipped_name(n: Seq<char>) -> bool {
    (n.len() > 0 && n[0] == '.') || n == "node_modules"@ || n == ".git"@ || n == "target"@
        || n == "build"@ || n == "dist"@ || n == ".cache"@ || n == "vendor"@ || n == "__pycache__"@
}

/// Whether a directory of this name is entered during a scan.
pub fn should_descend(name: &str) -> (r: bool)
    ensures
        r == !skipped_name(name@),
{
    let v = chars_of(name);
    if v.len() > 0 && v[0] == '.' {
        return false;
    }
    !(same_text(name, "node_modules") || same_text(name, ".git") || same_text(name, "target")
        || same_text(name, "build") || same_text(name, "dist") || same_text(name, ".cache")
        || same_text(name, "vendor") || same_text(name, "__pycache__"))
}

/// A scan in progress: the directories still to visit, each with its depth,
/// and the repositories found so far.
pub struct Scan {
    stack: Vec<(String, u32)>,
    repos: Vec<Repository>,
}

pub open spec fn stack_views(v: Seq<(String, u32)>) -> Seq<(Seq<char>, u32)> {
    v.map_values(|p: (String, u32)| (p.0@, p.1))
}

impl Scan {
    pub closed spec fn pending(&self) -> Seq<(Seq<char>, u32)> {
        stack_views(self.stack@)
    }

    pub closed spec fn found(&self) -> Seq<Repository> {
        self.repos@
    }

    /// A scan of `root`, which is visited first, at depth 0.
    pub fn new(root: String) -> (r: Scan)
        ensures
            r.pending() == seq![(root@, 0u32)],
            r.found().len() == 0,
    {
        let r = Scan { stack: vec![(root, 0u32)], repos: Vec::new() };
        assert(stack_views(r.stack@) =~= seq![(r.stack@[0].0@, 0u32)]);
        r
    }

    /// The next directory to visit, last pushed first; directories deeper than
    /// `MAX_SCAN_DEPTH` are dropped on the way.
    pub fn next_dir(&mut self) -> (r: Option<(String, u32)>)
        ensures
            r matches Some(d) ==> d.1 <= MAX_SCAN_DEPTH,
            final(self).found() == old(self).found(),
            final(self).pending().len() <= old(self).pending().len(),
            r is None ==> final(self).pending().len() == 0,
            r is None ==> forall|j: int| 0 <= j < old(self).pending().len()
                ==> (#[trigger] old(self).pending()[j]).1 > MAX_SCAN_DEPTH,
            r matches Some(d) ==> ({
                let k = final(self).pending().len();
                &&& k < old(self).pending().len()
                &&& final(self).pending() == old(self).pending().subrange(0, k as int)
                &&& old(self).pending()[k as int] == (d.0@, d.1)
                &&& forall|j: int| k < j < old(self).pending().len()
                    ==> (#[trigger] old(self).pending()[j]).1 > MAX_SCAN_DEPTH
            }),
    {
        let ghost initial = stack_views(self.stack@);
        loop
            invariant
                self.repos@ == old(self).repos@,
                initial == stack_views(old(self).stack@),
                stack_views(self.stack@) == initial.subrange(0, self.stack@.len() as int),
                self.stack@.len() <= initial.len(),
                forall|j: int| self.stack@.len() <= j < initial.len() ==> (#[trigger] initial[j]).1 > MAX_SCAN_DEPTH,
            decreases self.stack@.len(),
        {
            let ghost before = self.stack@;
            match self.stack.pop() {
                None => {
                    return None;
                },
                Some(d) => {
                    let ghost k = self.stack@.len();
                    assert(self.stack@ =~= before.drop_last());
                    assert(stack_views(self.stack@) =~= initial.subrange(0, k as int));
                    assert(initial[k as int] == stack_views(before)[k as int]);
                    if d.1 <= MAX_SCAN_DEPTH {
                        return Some(d);
                    }
                },
            }
        }
    }

    /// Records the repository at `path`, named after its directory, or
    /// `unknown` when it has no name.
    pub fn add_repository(&mut self, path: String, dir_name: Option<String>, remote_url: Option<String>)
        ensures
            final(self).pending() == old(self).pending(),
            final(self).found().len() == old(self).found().len() + 1,
            final(self).found().subrange(0, old(self).found().len() as int) == old(self).found(),
            ({
                let r = final(self).found().last();
                &&& r.path@ == path@
                &&& r.name@ == match dir_name {
                    Some(n) => n@,
                    None => "unknown"@,
                }
                &&& r.remote_url == remote_url
                &&& r.last_commit is None
            }),
    {
        self.repos.push(Repository::new(path, dir_name, remote_url));
    }

    /// Queues the subdirectories of a directory visited at `depth`, each given
    /// as its path and its name, leaving out those that are not entered.
    /// Nothing is queued below `MAX_SCAN_DEPTH`.
    pub fn add_children(&mut self, depth: u32, children: Vec<(String, String)>)
        ensures
            final(self).found() == old(self).found(),
            final(self).pending() == old(self).pending() + if depth < MAX_SCAN_DEPTH {
                children@.filter(|c: (String, String)| !skipped_name(c.1@)).map_values(
                    |c: (String, String)| (c.0@, (depth + 1) as u32))
            } else {
                Seq::empty()
            },
    {
        let ghost initial = stack_views(self.stack@);
        if depth >= MAX_SCAN_DEPTH {
            assert(stack_views(self.stack@) =~= initial + Seq::<(Seq<char>, u32)>::empty());
            return;
        }
        let ghost cs = children@;
        let mut rest = children;
        let ghost n = cs.len();
        while rest.len() > 0
            invariant
                depth < MAX_SCAN_DEPTH,
                self.repos@ == old(self).repos@,
                n == cs.len(),
                rest@.len() <= n,
                rest@ == cs.subrange(n - rest@.len(), n as int),
                stack_views(self.stack@) == initial + cs.subrange(0, n - rest@.len()).filter(
                    |c: (String, String)| !skipped_name(c.1@)).map_values(
                    |c: (String, String)| (c.0@, (depth + 1) as u32)),
            decreases rest.len(),
        {
            let ghost k = n - rest@.len();
            let ghost r0 = rest@;
            let c = rest.remove(0);
            assert(rest@ =~= r0.subrange(1, r0.len() as int));
            assert(cs[k] == c);
            let ghost pre = cs.subrange(0, k);
            let ghost post = cs.subrange(0, k + 1);
            assert(post.drop_last() =~= pre);
            assert(post.filter(|c: (String, String)| !skipped_name(c.1@))
                =~= if !skipped_name(c.1@) {
                    pre.filter(|c: (String, String)| !skipped_name(c.1@)).push(c)
                } else {
                    pre.filter(|c: (String, String)| !skipped_name(c.1@))
                }) by {
                reveal(Seq::filter);
                assert(post.last() == c);
            }
            let ghost sb = stack_views(self.stack@);
            if should_descend(c.1.as_str()) {
                self.stack.push((c.0, depth + 1));
                assert(stack_views(self.stack@) =~= sb.push((c.0@, (depth + 1) as u32)));
            }
        }
        assert(cs.subrange(0, n as int) =~= cs);
    }

    /// The repositories found, sorted by their lowercase names; repositories of
    /// equal such names keep the order in which they were found.
    pub fn finish(self) -> (r: Vec<Repository>)
        ensures
            r@ == values_of(sort_keyed(self.found().map_values(|x: Repository| (lowercase_of(x.name@), x)))),
            r@.len() == self.found().len(),
            forall|i: int| 0 <= i < r@.len() - 1 ==> chars_le(
                lowercase_of((#[trigger] r@[i]).name@), lowercase_of(r@[i + 1].name@)),
    {
        sort_repositories(self.repos)
    }
}

/// Repositories sorted by their lowercase names, stably.
pub fn sort_repositories(repos: Vec<Repository>) -> (r: Vec<Repository>)
    ensures
        r@ == values_of(sort_keyed(repos@.map_values(|x: Repository| (lowercase_of(x.name@), x)))),
        r@.len() == repos@.len(),
        forall|i: int| 0 <= i < r@.len() - 1 ==> chars_le(
            lowercase_of((#[trigger] r@[i]).name@), lowercase_of(r@[i + 1].name@)),
{
    proof {
        let f = |x: Repository| lowercase_of(x.name@);
        crate::sorting::lemma_values_ordered(repos@, f);
        assert(repos@.map_values(|x: Repository| (lowercase_of(x.name@), x)) =~= repos@.map_values(
            |x: Repository| (f(x), x)));
    }
    let ghost all = repos@;
    let mut keyed: Vec<(Vec<char>, Repository)> = Vec::new();
    let mut rest = repos;
    let ghost n = all.len();
    while rest.len() > 0
        invariant
            n == all.len(),
            rest@.len() <= n,
            rest@ == all.subrange(n - rest@.len(), n as int),
            keyed_views(keyed@) == all.subrange(0, n - rest@.len()).map_values(
                |x: Repository| (lowercase_of(x.name@), x)),
        decreases rest.len(),
    {
        let ghost k = n - rest@.len();
        let ghost r0 = rest@;
        let x = rest.remove(0);
        assert(rest@ =~= r0.subrange(1, r0.len() as int));
        let key = chars_of(to_lowercase(x.name.as_str()).as_str());
        let ghost kb = keyed_views(keyed@);
        keyed.push((key, x));
        assert(keyed_views(keyed@) =~= kb.push((key@, x)));
        assert(all.subrange(0, k + 1) =~= all.subrange(0, k).push(x));
        assert(keyed_views(keyed@) =~= all.subrange(0, k + 1).map_values(
            |x: Repository| (lowercase_of(x.name@), x)));
    }
    assert(all.subrange(0, n as int) =~= all);
    sort_by_keys(keyed)
}

} // verus!
