//! The current branch, found by falling back from one query to the next, and
//! the branch listing.
use vstd::prelude::*;
use crate::executor::{error_text, GitError, GitResult};
use crate::text::{
    chars_of, contains, contains_in, ends_with, find_from, find_in, gather, has_prefix, has_suffix,
    lines_of, slice_vec, split_by, split_on, starts_with, string_from, text_lines, trim, trim_char,
    trim_char_vec, trim_prefix_all, trim_prefix_all_vec, trim_vec, views, words, words_of,
};
use crate::types::{Branch, opt_view};

verus! {

/// The branch that one line of branch-aware status output names.
pub open spec fn header_branch(l: Seq<char>) -> Option<Seq<char>> {
    if !starts_with(l, "## "@) {
        None
    } else if contains(l, "HEAD detached at"@) {
        match find_from(l, "at "@, 0) {
            Some(k) => {
                let t = trim(l.subrange(k + 3, l.len() as int));
                let w = words(t);
                let first = if w.len() > 0 { w[0] } else { t };
                Some(trim_char(trim_char(first, '"'), '\''))
            },
            None => None,
        }
    } else if !contains(l, "HEAD"@) {
        let w = words(trim_prefix_all(l, "## "@));
        if w.len() > 0 { Some(w[0]) } else { None }
    } else {
        None
    }
}

/// The first line of `ls`, from index `i` on, that names a branch.
pub open spec fn first_header_branch(ls: Seq<Seq<char>>, i: int) -> Option<Seq<char>>
    decreases ls.len() - i,
{
    if i < 0 || i >= ls.len() {
        None
    } else {
        match header_branch(ls[i]) {
            Some(b) => Some(b),
            None => first_header_branch(ls, i + 1),
        }
    }
}

/// The branch that branch-aware status output names.
pub open spec fn status_header_branch(out: Seq<char>) -> Option<Seq<char>> {
    first_header_branch(text_lines(out), 0)
}

/// The branch that one ref decoration names in the form `HEAD -> X` when
/// `arrow` holds, or else as the last `/`-separated segment of a ref that is
/// neither a tag nor HEAD.
pub open spec fn decoration_branch(raw: Seq<char>, arrow: bool) -> Option<Seq<char>> {
    let part = trim(raw);
    if arrow {
        if starts_with(part, "HEAD -> "@) {
            Some(part.subrange(8, part.len() as int))
        } else {
            None
        }
    } else if !contains(part, "HEAD"@) && !contains(part, "tag:"@) && contains(part, "/"@) {
        Some(trim(split_on(part, '/').last()))
    } else {
        None
    }
}

pub open spec fn first_decoration_branch(ps: Seq<Seq<char>>, arrow: bool, i: int) -> Option<Seq<char>>
    decreases ps.len() - i,
{
    if i < 0 || i >= ps.len() {
        None
    } else {
        match decoration_branch(ps[i], arrow) {
            Some(b) => Some(b),
            None => first_decoration_branch(ps, arrow, i + 1),
        }
    }
}

/// The branch that a comma-separated ref decoration list names: the first
/// `HEAD -> X` decoration, and failing that the first other branch ref.
pub open spec fn decorated_branch(refs: Seq<char>) -> Option<Seq<char>> {
    let ps = split_on(refs, ',');
    match first_decoration_branch(ps, true, 0) {
        Some(b) => Some(b),
        None => first_decoration_branch(ps, false, 0),
    }
}

fn header_branch_of(l: &Vec<char>) -> (r: Option<Vec<char>>)
    ensures
        r matches Some(b) ==> header_branch(l@) == Some(b@),
        r is None ==> header_branch(l@) is None,
{
    let marker = chars_of("## ");
    if !has_prefix(l, &marker) {
        return None;
    }
    if contains_in(l, &chars_of("HEAD detached at")) {
        let at = chars_of("at ");
        proof {
            reveal_strlit("at ");
        }
        match find_in(l, &at) {
            Some(k) => {
                let n = l.len();
                let rest = slice_vec(l, k + 3, n);
                let t = trim_vec(&rest);
                let w = words_of(&t);
                let first = if w.len() > 0 { slice_vec(&w[0], 0, w[0].len()) } else { t };
                proof {
                    if w@.len() > 0 {
                        assert(w@[0]@.subrange(0, w@[0]@.len() as int) == w@[0]@);
                        assert(views(w@)[0] == w@[0]@);
                    }
                }
                let a = trim_char_vec(&first, '"');
                Some(trim_char_vec(&a, '\''))
            },
            None => None,
        }
    } else if !contains_in(l, &chars_of("HEAD")) {
        let body = trim_prefix_all_vec(l, &marker);
        let w = words_of(&body);
        if w.len() > 0 {
            let b = slice_vec(&w[0], 0, w[0].len());
            assert(w@[0]@.subrange(0, w@[0]@.len() as int) == w@[0]@);
            assert(views(w@)[0] == w@[0]@);
            Some(b)
        } else {
            None
        }
    } else {
        None
    }
}

/// The branch that branch-aware status output names, from its first line that
/// names one.
pub fn branch_from_status_header(output: &str) -> (r: Option<String>)
    ensures
        r matches Some(b) ==> status_header_branch(output@) == Some(b@),
        r is None ==> status_header_branch(output@) is None,
{
    let v = chars_of(output);
    let ls = lines_of(&v);
    let ghost lv = text_lines(output@);
    let mut i: usize = 0;
    while i < ls.len()
        invariant
            i <= ls.len(),
            views(ls@) == lv,
            lv == text_lines(output@),
            first_header_branch(lv, 0) == first_header_branch(lv, i as int),
        decreases ls.len() - i,
    {
        assert(lv[i as int] == ls@[i as int]@);
        match header_branch_of(&ls[i]) {
            Some(b) => {
                return Some(string_from(&b));
            },
            None => {},
        }
        i += 1;
    }
    None
}

fn decoration_branch_of(raw: &Vec<char>, arrow: bool) -> (r: Option<Vec<char>>)
    ensures
        r matches Some(b) ==> decoration_branch(raw@, arrow) == Some(b@),
        r is None ==> decoration_branch(raw@, arrow) is None,
{
    let part = trim_vec(raw);
    if arrow {
        let head = chars_of("HEAD -> ");
        if has_prefix(&part, &head) {
            proof {
                reveal_strlit("HEAD -> ");
            }
            return Some(slice_vec(&part, 8, part.len()));
        }
        return None;
    }
    if !contains_in(&part, &chars_of("HEAD")) && !contains_in(&part, &chars_of("tag:"))
        && contains_in(&part, &chars_of("/")) {
        let pieces = split_by(&part, '/');
        proof {
            crate::text::lemma_split_nonempty(part@, '/');
        }
        let n = pieces.len();
        assert(views(pieces@)[n - 1] == pieces@[n - 1]@);
        return Some(trim_vec(&pieces[n - 1]));
    }
    None
}

/// The first decoration of `ps` that names a branch in the chosen form.
fn first_decoration_of(ps: &Vec<Vec<char>>, arrow: bool) -> (r: Option<Vec<char>>)
    ensures
        r matches Some(b) ==> first_decoration_branch(views(ps@), arrow, 0) == Some(b@),
        r is None ==> first_decoration_branch(views(ps@), arrow, 0) is None,
{
    let ghost pv = views(ps@);
    let mut i: usize = 0;
    while i < ps.len()
        invariant
            i <= ps.len(),
            pv == views(ps@),
            first_decoration_branch(pv, arrow, 0) == first_decoration_branch(pv, arrow, i as int),
        decreases ps.len() - i,
    {
        assert(pv[i as int] == ps@[i as int]@);
        match decoration_branch_of(&ps[i], arrow) {
            Some(b) => {
                return Some(b);
            },
            None => {},
        }
        i += 1;
    }
    None
}

/// The branch that a comma-separated ref decoration list names: a
/// `HEAD -> X` decoration is preferred wherever it stands.
pub fn branch_from_decorations(refs: &str) -> (r: Option<String>)
    ensures
        r matches Some(b) ==> decorated_branch(refs@) == Some(b@),
        r is None ==> decorated_branch(refs@) is None,
{
    let v = chars_of(refs);
    let ps = split_by(&v, ',');
    match first_decoration_of(&ps, true) {
        Some(b) => Some(string_from(&b)),
        None => match first_decoration_of(&ps, false) {
            Some(b) => Some(string_from(&b)),
            None => None,
        },
    }
}

/// The queries tried, in this order, to name the current branch.
#[derive(Clone, Copy, Debug, PartialEq, Eq, Structural)]
pub enum BranchQuery {
    /// The short symbolic ref of HEAD.
    SymbolicRef,
    /// The header line of branch-aware status output.
    StatusHeader,
    /// The abbreviated ref name of HEAD.
    AbbrevRef,
    /// The ref decorations of the latest commit.
    Decorations,
}

/// What to do next while naming the current branch.
#[derive(Debug)]
pub enum BranchStep {
    Run(BranchQuery),
    Done(GitResult<String>),
}

pub open spec fn arg_views(v: Seq<String>) -> Seq<Seq<char>> {
    v.map_values(|a: String| a@)
}

impl BranchQuery {
    /// The command line of the query.
    pub fn args(&self) -> (r: Vec<String>)
        ensures
            arg_views(r@) == match *self {
                BranchQuery::SymbolicRef => seq!["symbolic-ref"@, "--short"@, "HEAD"@],
                BranchQuery::StatusHeader => seq!["status"@, "--porcelain=branch"@, "-b"@],
                BranchQuery::AbbrevRef => seq!["rev-parse"@, "--abbrev-ref"@, "HEAD"@],
                BranchQuery::Decorations => seq!["log"@, "-1"@, "--pretty=format:%D"@],
            },
    {
        let r = match self {
            BranchQuery::SymbolicRef => vec!["symbolic-ref".to_string(), "--short".to_string(), "HEAD".to_string()],
            BranchQuery::StatusHeader => vec!["status".to_string(), "--porcelain=branch".to_string(), "-b".to_string()],
            BranchQuery::AbbrevRef => vec!["rev-parse".to_string(), "--abbrev-ref".to_string(), "HEAD".to_string()],
            BranchQuery::Decorations => vec!["log".to_string(), "-1".to_string(), "--pretty=format:%D".to_string()],
        };
        assert(arg_views(r@) =~= match *self {
            BranchQuery::SymbolicRef => seq!["symbolic-ref"@, "--short"@, "HEAD"@],
            BranchQuery::StatusHeader => seq!["status"@, "--porcelain=branch"@, "-b"@],
            BranchQuery::AbbrevRef => seq!["rev-parse"@, "--abbrev-ref"@, "HEAD"@],
            BranchQuery::Decorations => seq!["log"@, "-1"@, "--pretty=format:%D"@],
        });
        r
    }
}

/// The error text of a repository that has no commit yet.
pub open spec fn is_empty_repo_error(e: GitError) -> bool {
    let t = error_text(e.command@, e.exit_code, e.message@);
    contains(t, "ambiguous argument 'HEAD'"@) || contains(t, "unknown revision"@)
}

/// Whether `e` says that the repository has no commit yet.
pub fn is_empty_repo(e: &GitError) -> (r: bool)
    ensures
        r == is_empty_repo_error(*e),
{
    let t = chars_of(e.to_string().as_str());
    contains_in(&t, &chars_of("ambiguous argument 'HEAD'")) || contains_in(&t, &chars_of("unknown revision"))
}

/// The step that follows the text result of `query`. A result is what the
/// query printed, trimmed at its end, or the error it failed with.
pub fn next_branch_step(query: BranchQuery, result: GitResult<String>) -> (r: BranchStep)
    ensures
        query == BranchQuery::SymbolicRef ==> match result {
            Ok(b) => r matches BranchStep::Done(Ok(n)) && n@ == trim(b@),
            Err(_) => r == BranchStep::Run(BranchQuery::StatusHeader),
        },
        query == BranchQuery::StatusHeader ==> match result {
            Ok(t) => match status_header_branch(t@) {
                Some(b) => r matches BranchStep::Done(Ok(n)) && n@ == b,
                None => r == BranchStep::Run(BranchQuery::AbbrevRef),
            },
            Err(_) => r == BranchStep::Run(BranchQuery::AbbrevRef),
        },
        query == BranchQuery::AbbrevRef ==> match result {
            Ok(t) => if trim(t@) == "HEAD"@ {
                r == BranchStep::Run(BranchQuery::Decorations)
            } else {
                r matches BranchStep::Done(Ok(n)) && n@ == trim(t@)
            },
            Err(e) => if is_empty_repo_error(e) {
                r matches BranchStep::Done(Ok(n)) && n@ == "No Branch"@
            } else {
                r matches BranchStep::Done(Err(f)) && f == e
            },
        },
        query == BranchQuery::Decorations ==> match result {
            Ok(t) => match decorated_branch(t@) {
                Some(b) => r matches BranchStep::Done(Ok(n)) && n@ == b,
                None => r matches BranchStep::Done(Ok(n)) && n@ == "HEAD"@,
            },
            Err(_) => r matches BranchStep::Done(Ok(n)) && n@ == "HEAD"@,
        },
{
    match query {
        BranchQuery::SymbolicRef => match result {
            Ok(b) => {
                let v = chars_of(b.as_str());
                BranchStep::Done(Ok(string_from(&trim_vec(&v))))
            },
            Err(_) => BranchStep::Run(BranchQuery::StatusHeader),
        },
        BranchQuery::StatusHeader => match result {
            Ok(t) => match branch_from_status_header(t.as_str()) {
                Some(b) => BranchStep::Done(Ok(b)),
                None => BranchStep::Run(BranchQuery::AbbrevRef),
            },
            Err(_) => BranchStep::Run(BranchQuery::AbbrevRef),
        },
        BranchQuery::AbbrevRef => match result {
            Ok(t) => {
                let v = chars_of(t.as_str());
                let b = trim_vec(&v);
                let head = chars_of("HEAD");
                if b.len() == head.len() && has_prefix(&b, &head) {
                    assert(b@ =~= head@);
                    BranchStep::Run(BranchQuery::Decorations)
                } else {
                    assert(b@ != "HEAD"@) by {
                        if b@ == head@ {
                            assert(b@.subrange(0, head@.len() as int) == b@);
                        }
                    }
                    BranchStep::Done(Ok(string_from(&b)))
                }
            },
            Err(e) => {
                if is_empty_repo(&e) {
                    BranchStep::Done(Ok("No Branch".to_string()))
                } else {
                    BranchStep::Done(Err(e))
                }
            },
        },
        BranchQuery::Decorations => match result {
            Ok(t) => match branch_from_decorations(t.as_str()) {
                Some(b) => BranchStep::Done(Ok(b)),
                None => BranchStep::Done(Ok("HEAD".to_string())),
            },
            Err(_) => BranchStep::Done(Ok("HEAD".to_string())),
        },
    }
}

/// The branch that one line of a branch listing describes, unless it is a
/// remote's symbolic HEAD.
pub open spec fn listed_branch(l: Seq<char>) -> Seq<(Seq<char>, bool, bool, Option<Seq<char>>)> {
    let parts = split_on(l, '\t');
    let refname = parts[0];
    let is_current = parts.len() > 1 && parts[1] == "*"@;
    let upstream = if parts.len() > 2 && parts[2].len() > 0 { Some(parts[2]) } else { None };
    let is_remote = starts_with(refname, "refs/remotes/"@);
    let name = if starts_with(refname, "refs/heads/"@) {
        trim_prefix_all(refname, "refs/heads/"@)
    } else if is_remote {
        trim_prefix_all(refname, "refs/remotes/"@)
    } else {
        refname
    };
    if ends_with(name, "/HEAD"@) {
        Seq::empty()
    } else {
        seq![(name, is_current, is_remote, upstream)]
    }
}

pub open spec fn branches_of_lines(ls: Seq<Seq<char>>) -> Seq<(Seq<char>, bool, bool, Option<Seq<char>>)> {
    gather(ls, |l: Seq<char>| listed_branch(l))
}

/// The branches of a listing whose lines are `refname<TAB>head-marker<TAB>upstream`.
pub open spec fn branch_entries(out: Seq<char>) -> Seq<(Seq<char>, bool, bool, Option<Seq<char>>)> {
    branches_of_lines(text_lines(out))
}

pub open spec fn branch_views(v: Seq<Branch>) -> Seq<(Seq<char>, bool, bool, Option<Seq<char>>)> {
    v.map_values(|b: Branch| b@)
}

fn branch_of_line(l: &Vec<char>) -> (r: Option<Branch>)
    ensures
        r matches Some(b) ==> listed_branch(l@) == seq![b@],
        r is None ==> listed_branch(l@) == Seq::<(Seq<char>, bool, bool, Option<Seq<char>>)>::empty(),
{
    let parts = split_by(l, '\t');
    proof {
        crate::text::lemma_split_nonempty(l@, '\t');
    }
    let ghost pv = split_on(l@, '\t');
    assert(pv[0] == parts@[0]@);
    let refname = &parts[0];
    let star = chars_of("*");
    let is_current = parts.len() > 1 && parts[1].len() == star.len() && has_prefix(&parts[1], &star);
    proof {
        if parts.len() > 1 {
            assert(pv[1] == parts@[1]@);
            if parts@[1]@.len() == star@.len() && starts_with(parts@[1]@, star@) {
                assert(parts@[1]@ =~= star@);
            }
            if parts@[1]@ == star@ {
                assert(parts@[1]@.subrange(0, star@.len() as int) == parts@[1]@);
            }
        }
    }
    let upstream = if parts.len() > 2 && parts[2].len() > 0 {
        assert(pv[2] == parts@[2]@);
        Some(string_from(&parts[2]))
    } else {
        None
    };
    let heads = chars_of("refs/heads/");
    let remotes = chars_of("refs/remotes/");
    let is_remote = has_prefix(refname, &remotes);
    let name = if has_prefix(refname, &heads) {
        trim_prefix_all_vec(refname, &heads)
    } else if is_remote {
        trim_prefix_all_vec(refname, &remotes)
    } else {
        slice_vec(refname, 0, refname.len())
    };
    assert(refname@.subrange(0, refname@.len() as int) == refname@);
    if has_suffix(&name, &chars_of("/HEAD")) {
        return None;
    }
    let b = Branch { name: string_from(&name), is_current, is_remote, upstream };
    assert(is_current == (pv.len() > 1 && pv[1] == "*"@));
    assert(opt_view(upstream) == if pv.len() > 2 && pv[2].len() > 0 { Some(pv[2]) } else { None::<Seq<char>> });
    assert(listed_branch(l@) == seq![b@]);
    Some(b)
}

/// Reads a branch listing whose lines are `refname<TAB>head-marker<TAB>upstream`,
/// in the listing's order, leaving out remotes' symbolic HEADs.
pub fn parse_branch_list(output: &str) -> (r: Vec<Branch>)
    ensures
        branch_views(r@) == branch_entries(output@),
{
    let v = chars_of(output);
    let ls = lines_of(&v);
    let ghost lv = text_lines(output@);
    let mut out: Vec<Branch> = Vec::new();
    let mut i: usize = 0;
    while i < ls.len()
        invariant
            i <= ls.len(),
            views(ls@) == lv,
            lv == text_lines(output@),
            branch_views(out@) == gather(lv.subrange(0, i as int), |l: Seq<char>| listed_branch(l)),
        decreases ls.len() - i,
    {
        let ghost next = lv.subrange(0, i + 1);
        assert(next.drop_last() == lv.subrange(0, i as int));
        assert(next.last() == ls@[i as int]@);
        let ghost before = branch_views(out@);
        match branch_of_line(&ls[i]) {
            Some(b) => {
                out.push(b);
                assert(branch_views(out@) =~= before.push(b@));
            },
            None => {},
        }
        assert(branch_views(out@) =~= gather(next, |l: Seq<char>| listed_branch(l)));
        i += 1;
    }
    assert(lv.subrange(0, lv.len() as int) == lv);
    out
}

/// No branch read from a listing is a remote's symbolic HEAD.
pub proof fn lemma_no_symbolic_head(ls: Seq<Seq<char>>)
    ensures
        forall|i: int| 0 <= i < branches_of_lines(ls).len()
            ==> !ends_with((#[trigger] branches_of_lines(ls)[i]).0, "/HEAD"@),
    decreases ls.len(),
{
    if ls.len() > 0 {
        lemma_no_symbolic_head(ls.drop_last());
        let a = branches_of_lines(ls.drop_last());
        assert forall|i: int| 0 <= i < branches_of_lines(ls).len()
            implies !ends_with((#[trigger] branches_of_lines(ls)[i]).0, "/HEAD"@) by {
            if i >= a.len() {
                assert(branches_of_lines(ls)[i] == listed_branch(ls.last())[i - a.len()]);
            } else {
                assert(branches_of_lines(ls)[i] == a[i]);
            }
        }
    }
}

proof fn lemma_find_skips(s: Seq<char>, p: Seq<char>, i: int, j: int)
    requires
        0 <= i <= j,
        j + p.len() <= s.len(),
        forall|k: int| i <= k < j ==> #[trigger] s.subrange(k, k + p.len()) != p,
    ensures
        find_from(s, p, i) == find_from(s, p, j),
    decreases j - i,
{
    if i < j {
        lemma_find_skips(s, p, i + 1, j);
    }
}

proof fn lemma_found_somewhere(s: Seq<char>, p: Seq<char>, i: int, j: int)
    requires
        0 <= i <= j,
        j + p.len() <= s.len(),
        s.subrange(j, j + p.len()) == p,
    ensures
        find_from(s, p, i) is Some,
    decreases j - i,
{
    if i < j {
        lemma_found_somewhere(s, p, i + 1, j);
    }
}

/// A detached-HEAD header `## HEAD detached at <t>` names the first word of
/// `t` (all of the trimmed `t` when it has none), without surrounding quotes.
pub proof fn lemma_detached_header(t: Seq<char>)
    ensures
        header_branch("## HEAD detached at "@ + t) == Some(trim_char(trim_char(
            if words(trim(t)).len() > 0 { words(trim(t))[0] } else { trim(t) }, '"'), '\'')),
{
    let pre = "## HEAD detached at "@;
    let l = pre + t;
    reveal_strlit("## HEAD detached at ");
    reveal_strlit("## ");
    reveal_strlit("HEAD detached at");
    reveal_strlit("at ");
    let at = "at "@;
    assert(l.subrange(0, 3) =~= "## "@);
    assert(l.subrange(3, 19) =~= "HEAD detached at"@);
    lemma_found_somewhere(l, "HEAD detached at"@, 0, 3);
    assert(l.subrange(17, 20) =~= at);
    assert forall|k: int| 0 <= k < 17 implies #[trigger] l.subrange(k, k + at.len()) != at by {
        if k == 11 {
            assert(l.subrange(k, k + 3)[1] != at[1]);
        } else {
            assert(l.subrange(k, k + 3)[0] != at[0]);
        }
    }
    lemma_find_skips(l, at, 0, 17);
    assert(find_from(l, at, 17) == Some(17int));
    assert(l.subrange(20, l.len() as int) =~= t);
}

proof fn lemma_header_skips(ls: Seq<Seq<char>>, i: int, k: int)
    requires
        0 <= i <= k <= ls.len(),
        forall|j: int| i <= j < k ==> !starts_with(#[trigger] ls[j], "## "@),
    ensures
        first_header_branch(ls, i) == first_header_branch(ls, k),
    decreases k - i,
{
    if i < k {
        lemma_header_skips(ls, i + 1, k);
    }
}

/// In branch-aware status output whose first `## ` line is the detached-HEAD
/// header `## HEAD detached at <t>`, the branch named is the first word of `t`
/// (all of the trimmed `t` when it has none), without surrounding quotes.
pub proof fn lemma_detached_header_in_output(out: Seq<char>, k: int, t: Seq<char>)
    requires
        0 <= k < text_lines(out).len(),
        text_lines(out)[k] == "## HEAD detached at "@ + t,
        forall|j: int| 0 <= j < k ==> !starts_with(#[trigger] text_lines(out)[j], "## "@),
    ensures
        status_header_branch(out) == Some(trim_char(trim_char(
            if words(trim(t)).len() > 0 { words(trim(t))[0] } else { trim(t) }, '"'), '\'')),
{
    let ls = text_lines(out);
    lemma_header_skips(ls, 0, k);
    lemma_detached_header(t);
}

} // verus!
