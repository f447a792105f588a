//! Commit history and the files of one commit, read from formatted output.
use vstd::prelude::*;
use crate::text::{is_space, chars_of, gather, lines_of, split_by, split_on, string_from, text_lines, views, words, words_of};
use crate::types::{CommitInfo, FileChange, FileStatus, change_views};

verus! {

/// The commit that a line `hash<TAB>short<TAB>author<TAB>email<TAB>date<TAB>subject`
/// describes; a line with fewer than six fields describes none.
pub open spec fn commit_of_line(l: Seq<char>) -> Seq<(Seq<char>, Seq<char>, Seq<char>, Seq<char>, Seq<char>, Seq<char>)> {
    let p = split_on(l, '\t');
    if p.len() < 6 {
        Seq::empty()
    } else {
        seq![(p[0], p[1], p[5], p[2], p[3], p[4])]
    }
}

pub open spec fn commit_entries(out: Seq<char>) -> Seq<(Seq<char>, Seq<char>, Seq<char>, Seq<char>, Seq<char>, Seq<char>)> {
    gather(text_lines(out), |l: Seq<char>| commit_of_line(l))
}

pub open spec fn commit_views(v: Seq<CommitInfo>) -> Seq<(Seq<char>, Seq<char>, Seq<char>, Seq<char>, Seq<char>, Seq<char>)> {
    v.map_values(|c: CommitInfo| c@)
}

fn commit_of(l: &Vec<char>) -> (r: Option<CommitInfo>)
    ensures
        r matches Some(c) ==> commit_of_line(l@) == seq![c@],
        r is None ==> commit_of_line(l@).len() == 0,
{
    let p = split_by(l, '\t');
    if p.len() < 6 {
        return None;
    }
    let ghost pv = split_on(l@, '\t');
    assert(forall|k: int| 0 <= k < 6 ==> pv[k] == #[trigger] p@[k]@);
    let c = CommitInfo {
        hash: string_from(&p[0]),
        short_hash: string_from(&p[1]),
        author: string_from(&p[2]),
        email: string_from(&p[3]),
        timestamp: string_from(&p[4]),
        message: string_from(&p[5]),
    };
    assert(commit_of_line(l@) == seq![c@]);
    Some(c)
}

/// Reads history lines of six tab-separated fields, in order; lines with fewer
/// fields are skipped.
pub fn parse_history(output: &str) -> (r: Vec<CommitInfo>)
    ensures
        commit_views(r@) == commit_entries(output@),
{
    let v = chars_of(output);
    let ls = lines_of(&v);
    let ghost lv = text_lines(output@);
    let mut out: Vec<CommitInfo> = Vec::new();
    let mut i: usize = 0;
    while i < ls.len()
        invariant
            i <= ls.len(),
            views(ls@) == lv,
            lv == text_lines(output@),
            commit_views(out@) == gather(lv.subrange(0, i as int), |l: Seq<char>| commit_of_line(l)),
        decreases ls.len() - i,
    {
        let ghost next = lv.subrange(0, i + 1);
        assert(next.drop_last() == lv.subrange(0, i as int));
        assert(next.last() == ls@[i as int]@);
        let ghost before = commit_views(out@);
        match commit_of(&ls[i]) {
            Some(c) => {
                out.push(c);
                assert(commit_views(out@) =~= before.push(c@));
            },
            None => {},
        }
        assert(commit_views(out@) =~= gather(next, |l: Seq<char>| commit_of_line(l)));
        i += 1;
    }
    assert(lv.subrange(0, lv.len() as int) == lv);
    out
}

/// The change that a name-status letter names; any other letter is a modification.
pub open spec fn name_status(c: char) -> FileStatus {
    if c == 'A' {
        FileStatus::Added
    } else if c == 'D' {
        FileStatus::Deleted
    } else if c == 'R' {
        FileStatus::Renamed
    } else if c == 'C' {
        FileStatus::Copied
    } else {
        FileStatus::Modified
    }
}

/// The file that a name-status line `<code> <path>` describes.
pub open spec fn commit_file_of_line(l: Seq<char>) -> Seq<(Seq<char>, FileStatus)> {
    let w = words(l);
    if l.len() == 0 || w.len() < 2 {
        Seq::empty()
    } else {
        seq![(w[1], name_status(w[0][0]))]
    }
}

/// The files of name-status output, after its first line (the commit's header).
pub open spec fn commit_file_entries(out: Seq<char>) -> Seq<(Seq<char>, FileStatus)> {
    let ls = text_lines(out);
    if ls.len() == 0 {
        Seq::empty()
    } else {
        gather(ls.drop_first(), |l: Seq<char>| commit_file_of_line(l))
    }
}

/// A word is never empty.
proof fn lemma_words_nonempty(s: Seq<char>)
    ensures
        forall|i: int| 0 <= i < words(s).len() ==> (#[trigger] words(s)[i]).len() > 0,
        s.len() > 0 && !is_space(s.last()) ==> words(s).len() > 0,
    decreases s.len(),
{
    if s.len() > 0 {
        let t = s.drop_last();
        lemma_words_nonempty(t);
        let prev = words(t);
        if !is_space(s.last()) && s.len() > 1 && !is_space(s[s.len() - 2]) {
            assert(t.last() == s[s.len() - 2]);
            assert(prev.len() > 0);
            assert forall|i: int| 0 <= i < words(s).len() implies (#[trigger] words(s)[i]).len() > 0 by {
                if i == prev.len() - 1 {
                    assert(words(s)[i] == prev.last().push(s.last()));
                } else {
                    assert(words(s)[i] == prev[i]);
                }
            }
        } else if !is_space(s.last()) {
            assert forall|i: int| 0 <= i < words(s).len() implies (#[trigger] words(s)[i]).len() > 0 by {
                if i < prev.len() {
                    assert(words(s)[i] == prev[i]);
                }
            }
        }
    }
}

fn name_status_of(c: char) -> (r: FileStatus)
    ensures
        r == name_status(c),
{
    match c {
        'A' => FileStatus::Added,
        'D' => FileStatus::Deleted,
        'R' => FileStatus::Renamed,
        'C' => FileStatus::Copied,
        _ => FileStatus::Modified,
    }
}

fn commit_file_of(l: &Vec<char>) -> (r: Option<FileChange>)
    ensures
        r matches Some(c) ==> commit_file_of_line(l@) == seq![c@],
        r is None ==> commit_file_of_line(l@).len() == 0,
{
    if l.len() == 0 {
        return None;
    }
    let w = words_of(l);
    if w.len() < 2 {
        return None;
    }
    proof {
        lemma_words_nonempty(l@);
        assert(views(w@)[0] == w@[0]@);
        assert(views(w@)[1] == w@[1]@);
    }
    let code = w[0][0];
    let c = FileChange { path: string_from(&w[1]), status: name_status_of(code) };
    Some(c)
}

/// Reads the files of name-status output for one commit. Its first line is the
/// commit's header; blank lines and lines of fewer than two words are skipped.
pub fn parse_commit_files(output: &str) -> (r: Vec<FileChange>)
    ensures
        change_views(r@) == commit_file_entries(output@),
{
    let v = chars_of(output);
    let ls = lines_of(&v);
    let ghost lv = text_lines(output@);
    let mut out: Vec<FileChange> = Vec::new();
    if ls.len() == 0 {
        return out;
    }
    let ghost body = lv.drop_first();
    let mut i: usize = 1;
    while i < ls.len()
        invariant
            1 <= i <= ls.len(),
            views(ls@) == lv,
            lv == text_lines(output@),
            body == lv.drop_first(),
            change_views(out@) == gather(body.subrange(0, i - 1), |l: Seq<char>| commit_file_of_line(l)),
        decreases ls.len() - i,
    {
        let ghost next = body.subrange(0, i as int);
        assert(next.drop_last() == body.subrange(0, i - 1));
        assert(next.last() == ls@[i as int]@);
        let ghost before = change_views(out@);
        match commit_file_of(&ls[i]) {
            Some(c) => {
                out.push(c);
                assert(change_views(out@) =~= before.push(c@));
            },
            None => {},
        }
        assert(change_views(out@) =~= gather(next, |l: Seq<char>| commit_file_of_line(l)));
        i += 1;
    }
    assert(body.subrange(0, body.len() as int) == body);
    out
}

/// A name-status line whose code starts with a letter outside `A`, `D`, `R`, `C`
/// reads as a modification of its path.
pub proof fn lemma_unknown_code_is_modified(l: Seq<char>)
    requires
        words(l).len() >= 2,
        words(l)[0].len() > 0,
        words(l)[0][0] != 'A' && words(l)[0][0] != 'D' && words(l)[0][0] != 'R' && words(l)[0][0] != 'C',
    ensures
        commit_file_of_line(l) == seq![(words(l)[1], FileStatus::Modified)],
{
}

} // verus!
