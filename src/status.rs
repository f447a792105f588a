//! Short-form status output read into a repository status.
use vstd::prelude::*;
use crate::number::{parse_u32, u32_of};
use crate::text::{gather, chars_of, lines_of, string_of, text_lines, views, words, words_of};
use crate::types::{change_views, string_views, FileChange, FileStatus, RepositoryStatus};

verus! {

/// The change that a one-letter status code names.
pub open spec fn status_code(c: char) -> Option<FileStatus> {
    if c == 'A' {
        Some(FileStatus::Added)
    } else if c == 'M' {
        Some(FileStatus::Modified)
    } else if c == 'D' {
        Some(FileStatus::Deleted)
    } else if c == 'R' {
        Some(FileStatus::Renamed)
    } else if c == 'C' {
        Some(FileStatus::Copied)
    } else if c == 'U' {
        Some(FileStatus::Conflicted)
    } else {
        None
    }
}

/// Index and worktree codes that mark an unmerged path.
pub open spec fn is_conflict_pair(x: char, y: char) -> bool {
    x == 'U' || y == 'U' || (x == 'A' && y == 'A') || (x == 'D' && y == 'D')
}

/// The path of a status line: all that follows its three-character prefix.
pub open spec fn line_path(l: Seq<char>) -> Seq<char> {
    l.subrange(3, l.len() as int)
}

/// A line that carries a path and is not unmerged.
pub open spec fn is_plain_line(l: Seq<char>) -> bool {
    l.len() >= 3 && !is_conflict_pair(l[0], l[1])
}

pub open spec fn conflict_of_line(l: Seq<char>) -> Seq<(Seq<char>, FileStatus)> {
    if l.len() >= 3 && is_conflict_pair(l[0], l[1]) {
        seq![(line_path(l), FileStatus::Conflicted)]
    } else {
        Seq::empty()
    }
}

pub open spec fn staged_of_line(l: Seq<char>) -> Seq<(Seq<char>, FileStatus)> {
    if is_plain_line(l) && l[0] != ' ' && l[0] != '?' && status_code(l[0]) is Some {
        seq![(line_path(l), status_code(l[0])->0)]
    } else {
        Seq::empty()
    }
}

pub open spec fn unstaged_of_line(l: Seq<char>) -> Seq<(Seq<char>, FileStatus)> {
    if is_plain_line(l) && l[1] != ' ' && l[1] != '?' && status_code(l[1]) is Some {
        seq![(line_path(l), status_code(l[1])->0)]
    } else {
        Seq::empty()
    }
}

pub open spec fn untracked_of_line(l: Seq<char>) -> Seq<Seq<char>> {
    if is_plain_line(l) && l[0] == '?' {
        seq![line_path(l)]
    } else {
        Seq::empty()
    }
}

pub open spec fn staged_of_lines(ls: Seq<Seq<char>>) -> Seq<(Seq<char>, FileStatus)> {
    gather(ls, |l: Seq<char>| staged_of_line(l))
}

pub open spec fn unstaged_of_lines(ls: Seq<Seq<char>>) -> Seq<(Seq<char>, FileStatus)> {
    gather(ls, |l: Seq<char>| unstaged_of_line(l))
}

pub open spec fn untracked_of_lines(ls: Seq<Seq<char>>) -> Seq<Seq<char>> {
    gather(ls, |l: Seq<char>| untracked_of_line(l))
}

pub open spec fn conflict_of_lines(ls: Seq<Seq<char>>) -> Seq<(Seq<char>, FileStatus)> {
    gather(ls, |l: Seq<char>| conflict_of_line(l))
}

pub open spec fn staged_entries(out: Seq<char>) -> Seq<(Seq<char>, FileStatus)> {
    staged_of_lines(text_lines(out))
}

pub open spec fn unstaged_entries(out: Seq<char>) -> Seq<(Seq<char>, FileStatus)> {
    unstaged_of_lines(text_lines(out))
}

pub open spec fn untracked_entries(out: Seq<char>) -> Seq<Seq<char>> {
    untracked_of_lines(text_lines(out))
}

pub open spec fn conflict_entries(out: Seq<char>) -> Seq<(Seq<char>, FileStatus)> {
    conflict_of_lines(text_lines(out))
}

pub fn char_to_file_status(c: char) -> (r: Option<FileStatus>)
    ensures
        r == status_code(c),
{
    match c {
        'A' => Some(FileStatus::Added),
        'M' => Some(FileStatus::Modified),
        'D' => Some(FileStatus::Deleted),
        'R' => Some(FileStatus::Renamed),
        'C' => Some(FileStatus::Copied),
        'U' => Some(FileStatus::Conflicted),
        _ => None,
    }
}

/// Files a status line in `status`.
fn classify_line(l: &Vec<char>, status: &mut RepositoryStatus)
    ensures
        change_views(final(status).staged@) == change_views(old(status).staged@) + staged_of_line(l@),
        change_views(final(status).unstaged@) == change_views(old(status).unstaged@) + unstaged_of_line(l@),
        string_views(final(status).untracked@) == string_views(old(status).untracked@) + untracked_of_line(l@),
        change_views(final(status).conflicts@) == change_views(old(status).conflicts@) + conflict_of_line(l@),
        final(status).branch == old(status).branch,
        final(status).ahead == old(status).ahead,
        final(status).behind == old(status).behind,
        final(status).is_clean == old(status).is_clean,
{
    let ghost s0 = *status;
    if l.len() < 3 {
        assert(change_views(status.staged@) =~= change_views(s0.staged@) + staged_of_line(l@));
        assert(change_views(status.unstaged@) =~= change_views(s0.unstaged@) + unstaged_of_line(l@));
        assert(string_views(status.untracked@) =~= string_views(s0.untracked@) + untracked_of_line(l@));
        assert(change_views(status.conflicts@) =~= change_views(s0.conflicts@) + conflict_of_line(l@));
        return;
    }
    let x = l[0];
    let y = l[1];
    if x == 'U' || y == 'U' || (x == 'A' && y == 'A') || (x == 'D' && y == 'D') {
        let path = string_of(l, 3, l.len());
        status.conflicts.push(FileChange { path, status: FileStatus::Conflicted });
        assert(change_views(status.conflicts@) =~= change_views(s0.conflicts@) + conflict_of_line(l@));
        assert(change_views(status.staged@) =~= change_views(s0.staged@) + staged_of_line(l@));
        assert(change_views(status.unstaged@) =~= change_views(s0.unstaged@) + unstaged_of_line(l@));
        assert(string_views(status.untracked@) =~= string_views(s0.untracked@) + untracked_of_line(l@));
        return;
    }
    if x != ' ' && x != '?' {
        if let Some(fs) = char_to_file_status(x) {
            let path = string_of(l, 3, l.len());
            status.staged.push(FileChange { path, status: fs });
        }
    }
    if y != ' ' && y != '?' {
        if let Some(fs) = char_to_file_status(y) {
            let path = string_of(l, 3, l.len());
            status.unstaged.push(FileChange { path, status: fs });
        }
    }
    if x == '?' {
        let path = string_of(l, 3, l.len());
        status.untracked.push(path);
    }
    assert(change_views(status.conflicts@) =~= change_views(s0.conflicts@) + conflict_of_line(l@));
    assert(change_views(status.staged@) =~= change_views(s0.staged@) + staged_of_line(l@));
    assert(change_views(status.unstaged@) =~= change_views(s0.unstaged@) + unstaged_of_line(l@));
    assert(string_views(status.untracked@) =~= string_views(s0.untracked@) + untracked_of_line(l@));
}

/// Adds the files of short-form status output to `status`. The status is clean
/// afterwards exactly when it lists no change.
pub fn parse_porcelain_status(output: &str, status: &mut RepositoryStatus)
    ensures
        change_views(final(status).staged@) == change_views(old(status).staged@) + staged_entries(output@),
        change_views(final(status).unstaged@) == change_views(old(status).unstaged@) + unstaged_entries(output@),
        string_views(final(status).untracked@) == string_views(old(status).untracked@) + untracked_entries(output@),
        change_views(final(status).conflicts@) == change_views(old(status).conflicts@) + conflict_entries(output@),
        final(status).branch == old(status).branch,
        final(status).ahead == old(status).ahead,
        final(status).behind == old(status).behind,
        final(status).well_formed(),
{
    let ghost s0 = *status;
    let v = chars_of(output);
    let lines = lines_of(&v);
    let ghost ls = text_lines(output@);
    let mut i: usize = 0;
    while i < lines.len()
        invariant
            i <= lines.len(),
            views(lines@) == ls,
            ls == text_lines(output@),
            change_views(status.staged@) == change_views(s0.staged@)
                + gather(ls.subrange(0, i as int), |l: Seq<char>| staged_of_line(l)),
            change_views(status.unstaged@) == change_views(s0.unstaged@)
                + gather(ls.subrange(0, i as int), |l: Seq<char>| unstaged_of_line(l)),
            string_views(status.untracked@) == string_views(s0.untracked@)
                + gather(ls.subrange(0, i as int), |l: Seq<char>| untracked_of_line(l)),
            change_views(status.conflicts@) == change_views(s0.conflicts@)
                + gather(ls.subrange(0, i as int), |l: Seq<char>| conflict_of_line(l)),
            status.branch == s0.branch,
            status.ahead == s0.ahead,
            status.behind == s0.behind,
        decreases lines.len() - i,
    {
        classify_line(&lines[i], status);
        let ghost next = ls.subrange(0, i + 1);
        assert(next.drop_last() == ls.subrange(0, i as int));
        assert(next.last() == lines@[i as int]@);
        assert(change_views(status.staged@) =~= change_views(s0.staged@)
            + staged_of_lines(next));
        assert(change_views(status.unstaged@) =~= change_views(s0.unstaged@)
            + unstaged_of_lines(next));
        assert(string_views(status.untracked@) =~= string_views(s0.untracked@)
            + untracked_of_lines(next));
        assert(change_views(status.conflicts@) =~= change_views(s0.conflicts@)
            + conflict_of_lines(next));
        i += 1;
    }
    assert(ls.subrange(0, ls.len() as int) == ls);
    status.is_clean = status.staged.len() == 0 && status.unstaged.len() == 0
        && status.untracked.len() == 0 && status.conflicts.len() == 0;
}

/// A line whose index or worktree code is `U` files its path as a conflict and
/// nowhere else.
pub proof fn lemma_unmerged_line_only_conflicts(l: Seq<char>)
    requires
        l.len() >= 3,
        l[0] == 'U' || l[1] == 'U',
    ensures
        conflict_of_line(l) == seq![(line_path(l), FileStatus::Conflicted)],
        staged_of_line(l) == Seq::<(Seq<char>, FileStatus)>::empty(),
        unstaged_of_line(l) == Seq::<(Seq<char>, FileStatus)>::empty(),
        untracked_of_line(l) == Seq::<Seq<char>>::empty(),
{
}

/// No staged or unstaged entry read from status output is a conflict.
pub proof fn lemma_no_conflicted_change(ls: Seq<Seq<char>>)
    ensures
        forall|i: int| 0 <= i < staged_of_lines(ls).len()
            ==> (#[trigger] staged_of_lines(ls)[i]).1 != FileStatus::Conflicted,
        forall|i: int| 0 <= i < unstaged_of_lines(ls).len()
            ==> (#[trigger] unstaged_of_lines(ls)[i]).1 != FileStatus::Conflicted,
    decreases ls.len(),
{
    if ls.len() > 0 {
        lemma_no_conflicted_change(ls.drop_last());
        let a = staged_of_lines(ls.drop_last());
        let b = unstaged_of_lines(ls.drop_last());
        assert forall|i: int| 0 <= i < staged_of_lines(ls).len()
            implies (#[trigger] staged_of_lines(ls)[i]).1 != FileStatus::Conflicted by {
            if i >= a.len() {
                assert(staged_of_lines(ls)[i] == staged_of_line(ls.last())[i - a.len()]);
            } else {
                assert(staged_of_lines(ls)[i] == a[i]);
            }
        }
        assert forall|i: int| 0 <= i < unstaged_of_lines(ls).len()
            implies (#[trigger] unstaged_of_lines(ls)[i]).1 != FileStatus::Conflicted by {
            if i >= b.len() {
                assert(unstaged_of_lines(ls)[i] == unstaged_of_line(ls.last())[i - b.len()]);
            } else {
                assert(unstaged_of_lines(ls)[i] == b[i]);
            }
        }
    }
}

pub open spec fn or_zero(n: Option<u32>) -> u32 {
    match n {
        Some(v) => v,
        None => 0,
    }
}

/// Ahead and behind counts from `<behind> <ahead>` output; both zero when the
/// output is not two words, and a word that is no number counts as zero.
pub open spec fn tracking_counts(out: Seq<char>) -> (u32, u32) {
    let w = words(out);
    if w.len() == 2 {
        (or_zero(u32_of(w[1])), or_zero(u32_of(w[0])))
    } else {
        (0, 0)
    }
}

/// Reads left-right commit counts against upstream as `(ahead, behind)`.
pub fn parse_tracking_counts(output: &str) -> (r: (u32, u32))
    ensures
        r == tracking_counts(output@),
{
    let v = chars_of(output);
    let w = words_of(&v);
    if w.len() == 2 {
        let behind = match parse_u32(&w[0]) {
            Some(n) => n,
            None => 0,
        };
        let ahead = match parse_u32(&w[1]) {
            Some(n) => n,
            None => 0,
        };
        (ahead, behind)
    } else {
        (0, 0)
    }
}

/// The status of a repository from its branch name, its short-form status
/// output, and its upstream counts when they could be read.
pub fn status_from_outputs(branch: String, porcelain: &str, tracking: Option<&str>) -> (r: RepositoryStatus)
    ensures
        r.branch@ == branch@,
        change_views(r.staged@) == staged_entries(porcelain@),
        change_views(r.unstaged@) == unstaged_entries(porcelain@),
        string_views(r.untracked@) == untracked_entries(porcelain@),
        change_views(r.conflicts@) == conflict_entries(porcelain@),
        (r.ahead, r.behind) == match tracking {
            Some(t) => tracking_counts(t@),
            None => (0u32, 0u32),
        },
        r.well_formed(),
{
    let mut status = RepositoryStatus {
        branch,
        is_clean: true,
        ahead: 0,
        behind: 0,
        staged: Vec::new(),
        unstaged: Vec::new(),
        untracked: Vec::new(),
        conflicts: Vec::new(),
    };
    parse_porcelain_status(porcelain, &mut status);
    assert(change_views(status.staged@) =~= staged_entries(porcelain@));
    assert(change_views(status.unstaged@) =~= unstaged_entries(porcelain@));
    assert(string_views(status.untracked@) =~= untracked_entries(porcelain@));
    assert(change_views(status.conflicts@) =~= conflict_entries(porcelain@));
    if let Some(t) = tracking {
        let (ahead, behind) = parse_tracking_counts(t);
        status.ahead = ahead;
        status.behind = behind;
    }
    status
}

} // verus!
