//! Character-level text helpers with exact specifications.
use vstd::prelude::*;
use vstd::std_specs::iter::IteratorSpec;

verus! {

/// Unicode `White_Space`, the set that `char::is_whitespace` tests.
pub open spec fn is_space(c: char) -> bool {
    ('\u{9}' <= c && c <= '\u{d}') || c == ' ' || c == '\u{85}' || c == '\u{a0}'
        || c == '\u{1680}' || ('\u{2000}' <= c && c <= '\u{200a}') || c == '\u{2028}'
        || c == '\u{2029}' || c == '\u{202f}' || c == '\u{205f}' || c == '\u{3000}'
}

pub fn is_space_char(c: char) -> (r: bool)
    ensures
        r == is_space(c),
{
    ('\u{9}' <= c && c <= '\u{d}') || c == ' ' || c == '\u{85}' || c == '\u{a0}'
        || c == '\u{1680}' || ('\u{2000}' <= c && c <= '\u{200a}') || c == '\u{2028}'
        || c == '\u{2029}' || c == '\u{202f}' || c == '\u{205f}' || c == '\u{3000}'
}

/// The pieces of `s` between occurrences of `sep` (always at least one piece).
pub open spec fn split_on(s: Seq<char>, sep: char) -> Seq<Seq<char>>
    decreases s.len(),
{
    if s.len() == 0 {
        seq![Seq::empty()]
    } else {
        let prev = split_on(s.drop_last(), sep);
        if s.last() == sep {
            prev.push(Seq::empty())
        } else {
            prev.update(prev.len() - 1, prev.last().push(s.last()))
        }
    }
}

/// A line without the carriage return that ended it.
pub open spec fn strip_cr(l: Seq<char>) -> Seq<char> {
    if l.len() > 0 && l.last() == '\r' {
        l.drop_last()
    } else {
        l
    }
}

/// The lines of a text: split at `\n`, each terminated line loses a trailing `\r`,
/// and a final empty piece is no line.
pub open spec fn text_lines(s: Seq<char>) -> Seq<Seq<char>> {
    let p = split_on(s, '\n');
    let body = p.drop_last().map_values(|l: Seq<char>| strip_cr(l));
    if p.last().len() == 0 {
        body
    } else {
        body.push(p.last())
    }
}

/// The maximal runs of non-whitespace characters of `s`, in order.
pub open spec fn words(s: Seq<char>) -> Seq<Seq<char>>
    decreases s.len(),
{
    if s.len() == 0 {
        Seq::empty()
    } else {
        let prev = words(s.drop_last());
        let c = s.last();
        if is_space(c) {
            prev
        } else if s.len() > 1 && !is_space(s[s.len() - 2]) {
            prev.update(prev.len() - 1, prev.last().push(c))
        } else {
            prev.push(seq![c])
        }
    }
}

pub open spec fn trim_start(s: Seq<char>) -> Seq<char>
    decreases s.len(),
{
    if s.len() > 0 && is_space(s[0]) {
        trim_start(s.drop_first())
    } else {
        s
    }
}

pub open spec fn trim_end(s: Seq<char>) -> Seq<char>
    decreases s.len(),
{
    if s.len() > 0 && is_space(s.last()) {
        trim_end(s.drop_last())
    } else {
        s
    }
}

/// Whitespace removed from both ends.
pub open spec fn trim(s: Seq<char>) -> Seq<char> {
    trim_end(trim_start(s))
}

/// Every leading and trailing `c` removed.
pub open spec fn trim_char(s: Seq<char>, c: char) -> Seq<char>
    decreases s.len(),
{
    if s.len() > 0 && s[0] == c {
        trim_char(s.drop_first(), c)
    } else if s.len() > 0 && s.last() == c {
        trim_char(s.drop_last(), c)
    } else {
        s
    }
}

pub open spec fn starts_with(s: Seq<char>, p: Seq<char>) -> bool {
    p.len() <= s.len() && s.subrange(0, p.len() as int) == p
}

pub open spec fn ends_with(s: Seq<char>, p: Seq<char>) -> bool {
    p.len() <= s.len() && s.subrange(s.len() - p.len(), s.len() as int) == p
}

/// The first position at or after `i` where `p` occurs in `s`.
pub open spec fn find_from(s: Seq<char>, p: Seq<char>, i: int) -> Option<int>
    decreases s.len() + 1 - i,
{
    if i < 0 || i + p.len() > s.len() {
        None
    } else if s.subrange(i, i + p.len()) == p {
        Some(i)
    } else {
        find_from(s, p, i + 1)
    }
}

pub open spec fn contains(s: Seq<char>, p: Seq<char>) -> bool {
    find_from(s, p, 0) is Some
}

/// `s` without all the copies of `p` that it starts with, one after another.
pub open spec fn trim_prefix_all(s: Seq<char>, p: Seq<char>) -> Seq<char>
    decreases s.len(),
{
    if p.len() > 0 && starts_with(s, p) {
        trim_prefix_all(s.subrange(p.len() as int, s.len() as int), p)
    } else {
        s
    }
}

/// Every non-overlapping occurrence of `p`, from the left, replaced by `q`.
pub open spec fn replace_all(s: Seq<char>, p: Seq<char>, q: Seq<char>) -> Seq<char>
    decreases s.len(),
{
    if p.len() == 0 || s.len() < p.len() {
        s
    } else if starts_with(s, p) {
        q + replace_all(s.subrange(p.len() as int, s.len() as int), p, q)
    } else {
        seq![s[0]] + replace_all(s.drop_first(), p, q)
    }
}

/// What each line gives, in the order of the lines.
pub open spec fn gather<T>(ls: Seq<Seq<char>>, f: spec_fn(Seq<char>) -> Seq<T>) -> Seq<T>
    decreases ls.len(),
{
    if ls.len() == 0 {
        Seq::empty()
    } else {
        gather(ls.drop_last(), f) + f(ls.last())
    }
}

pub open spec fn views(v: Seq<Vec<char>>) -> Seq<Seq<char>> {
    v.map_values(|x: Vec<char>| x@)
}

/// The lowercase form of a text, as Unicode defines it.
pub uninterp spec fn lowercase_of(s: Seq<char>) -> Seq<char>;

/// Relies on `str::to_lowercase`: the result depends on the characters alone.
#[verifier::external_body]
pub(crate) fn to_lowercase(s: &str) -> (r: String)
    ensures
        r@ == lowercase_of(s@),
{
    s.to_lowercase()
}

/// Appends one character to a string.
/// Relies on `String::push`: the character is added at the end.
#[verifier::external_body]
pub(crate) fn push_char(s: &mut String, c: char)
    ensures
        final(s)@ == old(s)@.push(c),
{
    s.push(c);
}

/// The characters of a string slice, in order.
pub fn chars_of(s: &str) -> (r: Vec<char>)
    ensures
        r@ == s@,
{
    let mut out: Vec<char> = Vec::new();
    let mut it = s.chars();
    loop
        invariant
            out@ + it.remaining() == s@,
            it.decrease() is Some,
        ensures
            out@ == s@,
        decreases it.decrease()->0,
    {
        match it.next() {
            Some(c) => {
                out.push(c);
            },
            None => {
                assert(out@ =~= s@);
                break;
            },
        }
    }
    out
}

/// A new string holding `v[lo..hi]`.
pub fn string_of(v: &Vec<char>, lo: usize, hi: usize) -> (r: String)
    requires
        lo <= hi <= v.len(),
    ensures
        r@ == v@.subrange(lo as int, hi as int),
{
    let mut out = String::new();
    let mut i = lo;
    while i < hi
        invariant
            lo <= i <= hi <= v.len(),
            out@ == v@.subrange(lo as int, i as int),
        decreases hi - i,
    {
        push_char(&mut out, v[i]);
        assert(v@.subrange(lo as int, i + 1) == v@.subrange(lo as int, i as int).push(v@[i as int]));
        i += 1;
    }
    out
}

/// A copy of `v[lo..hi]`.
pub fn slice_vec(v: &Vec<char>, lo: usize, hi: usize) -> (r: Vec<char>)
    requires
        lo <= hi <= v.len(),
    ensures
        r@ == v@.subrange(lo as int, hi as int),
{
    let mut out: Vec<char> = Vec::new();
    let mut i = lo;
    while i < hi
        invariant
            lo <= i <= hi <= v.len(),
            out@ == v@.subrange(lo as int, i as int),
        decreases hi - i,
    {
        out.push(v[i]);
        assert(v@.subrange(lo as int, i + 1) == v@.subrange(lo as int, i as int).push(v@[i as int]));
        i += 1;
    }
    out
}

/// A new string with the characters of `v`.
pub fn string_from(v: &Vec<char>) -> (r: String)
    ensures
        r@ == v@,
{
    let r = string_of(v, 0, v.len());
    assert(v@.subrange(0, v@.len() as int) == v@);
    r
}

pub proof fn lemma_split_nonempty(s: Seq<char>, sep: char)
    ensures
        split_on(s, sep).len() >= 1,
    decreases s.len(),
{
    if s.len() > 0 {
        lemma_split_nonempty(s.drop_last(), sep);
    }
}

/// The pieces of `v` between occurrences of `sep`.
pub fn split_by(v: &Vec<char>, sep: char) -> (r: Vec<Vec<char>>)
    ensures
        views(r@) == split_on(v@, sep),
{
    let mut done: Vec<Vec<char>> = Vec::new();
    let mut cur: Vec<char> = Vec::new();
    let mut i: usize = 0;
    while i < v.len()
        invariant
            i <= v.len(),
            views(done@).push(cur@) == split_on(v@.subrange(0, i as int), sep),
        decreases v.len() - i,
    {
        let ghost before = v@.subrange(0, i as int);
        proof {
            lemma_split_nonempty(before, sep);
            assert(v@.subrange(0, i + 1).drop_last() == before);
        }
        if v[i] == sep {
            let piece = cur;
            done.push(piece);
            cur = Vec::new();
            assert(views(done@).push(cur@) == views(done@).drop_last().push(piece@).push(cur@));
        } else {
            cur.push(v[i]);
        }
        assert(views(done@).push(cur@) =~= split_on(v@.subrange(0, i + 1), sep));
        i += 1;
    }
    done.push(cur);
    assert(v@.subrange(0, v@.len() as int) == v@);
    assert(views(done@) =~= split_on(v@, sep));
    done
}

/// `l` without a trailing carriage return.
pub fn without_cr(l: &Vec<char>) -> (r: Vec<char>)
    ensures
        r@ == strip_cr(l@),
{
    if l.len() > 0 && l[l.len() - 1] == '\r' {
        slice_vec(l, 0, l.len() - 1)
    } else {
        slice_vec(l, 0, l.len())
    }
}

/// The lines of `v`, as `str::lines` yields them.
pub fn lines_of(v: &Vec<char>) -> (r: Vec<Vec<char>>)
    ensures
        views(r@) == text_lines(v@),
{
    let parts = split_by(v, '\n');
    proof {
        lemma_split_nonempty(v@, '\n');
    }
    let n = parts.len();
    let ghost p = split_on(v@, '\n');
    let ghost body = p.drop_last().map_values(|l: Seq<char>| strip_cr(l));
    let mut out: Vec<Vec<char>> = Vec::new();
    let mut i: usize = 0;
    while i + 1 < n
        invariant
            n == parts.len() >= 1,
            views(parts@) == p,
            body == p.drop_last().map_values(|l: Seq<char>| strip_cr(l)),
            i + 1 <= n,
            views(out@) == body.subrange(0, i as int),
        decreases n - i,
    {
        let l = without_cr(&parts[i]);
        let ghost prev = views(out@);
        out.push(l);
        assert(views(out@) =~= prev.push(l@));
        assert(p[i as int] == parts@[i as int]@);
        assert(body[i as int] == strip_cr(p[i as int]));
        assert(views(out@) =~= body.subrange(0, i + 1));
        i += 1;
    }
    assert(views(out@) =~= body);
    if parts[n - 1].len() > 0 {
        let last = slice_vec(&parts[n - 1], 0, parts[n - 1].len());
        let ghost prev = views(out@);
        out.push(last);
        assert(views(out@) =~= prev.push(last@));
        assert(p.last() == parts@[n - 1]@);
        assert(parts@[n - 1]@.subrange(0, parts@[n - 1]@.len() as int) == parts@[n - 1]@);
        assert(views(out@) =~= body.push(p.last()));
    }
    out
}

/// The whitespace-separated words of `v`, as `str::split_whitespace` yields them.
pub fn words_of(v: &Vec<char>) -> (r: Vec<Vec<char>>)
    ensures
        views(r@) == words(v@),
{
    let mut done: Vec<Vec<char>> = Vec::new();
    let mut cur: Vec<char> = Vec::new();
    let mut i: usize = 0;
    while i < v.len()
        invariant
            i <= v.len(),
            cur.len() > 0 <==> (i > 0 && !is_space(v@[i - 1])),
            words(v@.subrange(0, i as int)) == if cur.len() > 0 {
                views(done@).push(cur@)
            } else {
                views(done@)
            },
        decreases v.len() - i,
    {
        let ghost before = v@.subrange(0, i as int);
        let ghost after = v@.subrange(0, i + 1);
        assert(after.drop_last() == before);
        let c = v[i];
        assert(after.last() == c);
        assert(i > 0 ==> after[after.len() - 2] == v@[i - 1]);
        let ghost old_done = views(done@);
        let ghost old_cur = cur@;
        if is_space_char(c) {
            if cur.len() > 0 {
                let w = cur;
                done.push(w);
                cur = Vec::new();
                assert(views(done@) =~= old_done.push(w@));
            }
        } else {
            cur.push(c);
            if i > 0 && !is_space_char(v[i - 1]) {
                assert(old_done.push(old_cur).update(old_done.len() as int, old_cur.push(c))
                    =~= old_done.push(cur@));
            } else {
                assert(cur@ =~= seq![c]);
            }
        }
        assert(words(after) =~= if cur.len() > 0 {
            views(done@).push(cur@)
        } else {
            views(done@)
        });
        i += 1;
    }
    if cur.len() > 0 {
        done.push(cur);
    }
    assert(v@.subrange(0, v@.len() as int) == v@);
    assert(views(done@) =~= words(v@));
    done
}

/// `v` without leading and trailing whitespace.
pub fn trim_vec(v: &Vec<char>) -> (r: Vec<char>)
    ensures
        r@ == trim(v@),
{
    let mut lo: usize = 0;
    assert(v@.subrange(0, v@.len() as int) == v@);
    while lo < v.len() && is_space_char(v[lo])
        invariant
            lo <= v.len(),
            trim_start(v@) == trim_start(v@.subrange(lo as int, v@.len() as int)),
        decreases v.len() - lo,
    {
        assert(v@.subrange(lo as int, v@.len() as int).drop_first() == v@.subrange(lo + 1, v@.len() as int));
        lo += 1;
    }
    let ghost ts = v@.subrange(lo as int, v@.len() as int);
    assert(trim_start(ts) == ts);
    let mut hi: usize = v.len();
    while hi > lo && is_space_char(v[hi - 1])
        invariant
            lo <= hi <= v.len(),
            trim_end(ts) == trim_end(v@.subrange(lo as int, hi as int)),
            ts == v@.subrange(lo as int, v@.len() as int),
        decreases hi,
    {
        assert(v@.subrange(lo as int, hi as int).drop_last() == v@.subrange(lo as int, hi - 1));
        hi -= 1;
    }
    slice_vec(v, lo, hi)
}

/// `v` without trailing whitespace.
pub fn trim_end_vec(v: &Vec<char>) -> (r: Vec<char>)
    ensures
        r@ == trim_end(v@),
{
    let mut hi: usize = v.len();
    assert(v@.subrange(0, v@.len() as int) == v@);
    while hi > 0 && is_space_char(v[hi - 1])
        invariant
            hi <= v.len(),
            trim_end(v@) == trim_end(v@.subrange(0, hi as int)),
        decreases hi,
    {
        assert(v@.subrange(0, hi as int).drop_last() == v@.subrange(0, hi - 1));
        hi -= 1;
    }
    assert(v@.subrange(0, v@.len() as int) == v@);
    slice_vec(v, 0, hi)
}

/// `v` without any leading or trailing `c`.
pub fn trim_char_vec(v: &Vec<char>, c: char) -> (r: Vec<char>)
    ensures
        r@ == trim_char(v@, c),
{
    let mut lo: usize = 0;
    let mut hi: usize = v.len();
    assert(v@.subrange(0, v@.len() as int) == v@);
    while lo < hi && (v[lo] == c || v[hi - 1] == c)
        invariant
            lo <= hi <= v.len(),
            trim_char(v@, c) == trim_char(v@.subrange(lo as int, hi as int), c),
        decreases hi - lo,
    {
        let ghost cur = v@.subrange(lo as int, hi as int);
        if v[lo] == c {
            assert(cur.drop_first() == v@.subrange(lo + 1, hi as int));
            lo += 1;
        } else {
            assert(cur.drop_last() == v@.subrange(lo as int, hi - 1));
            hi -= 1;
        }
    }
    slice_vec(v, lo, hi)
}

/// Whether `v[at..]` starts with `p`.
pub fn matches_at(v: &Vec<char>, p: &Vec<char>, at: usize) -> (r: bool)
    requires
        at <= v.len(),
    ensures
        r == starts_with(v@.subrange(at as int, v@.len() as int), p@),
        r == (at + p@.len() <= v@.len() && v@.subrange(at as int, at + p@.len()) == p@),
{
    if p.len() > v.len() - at {
        return false;
    }
    let mut k: usize = 0;
    while k < p.len()
        invariant
            k <= p.len(),
            at + p.len() <= v.len(),
            forall|j: int| 0 <= j < k ==> v@[at + j] == p@[j],
        decreases p.len() - k,
    {
        if v[at + k] != p[k] {
            assert(v@.subrange(at as int, at + p@.len())[k as int] != p@[k as int]);
            assert(v@.subrange(at as int, v@.len() as int).subrange(0, p@.len() as int)[k as int] != p@[k as int]);
            return false;
        }
        k += 1;
    }
    assert(v@.subrange(at as int, at + p@.len()) =~= p@);
    assert(v@.subrange(at as int, v@.len() as int).subrange(0, p@.len() as int) =~= p@);
    true
}

pub fn has_prefix(v: &Vec<char>, p: &Vec<char>) -> (r: bool)
    ensures
        r == starts_with(v@, p@),
{
    assert(v@.subrange(0, v@.len() as int) == v@);
    matches_at(v, p, 0)
}

pub fn has_suffix(v: &Vec<char>, p: &Vec<char>) -> (r: bool)
    ensures
        r == ends_with(v@, p@),
{
    if p.len() > v.len() {
        false
    } else {
        matches_at(v, p, v.len() - p.len())
    }
}

/// The first position where `p` occurs in `v`.
pub fn find_in(v: &Vec<char>, p: &Vec<char>) -> (r: Option<usize>)
    ensures
        r matches Some(k) ==> find_from(v@, p@, 0) == Some(k as int) && k + p@.len() <= v@.len(),
        r is None ==> find_from(v@, p@, 0) is None,
{
    if p.len() > v.len() {
        return None;
    }
    let last = v.len() - p.len();
    let mut i: usize = 0;
    loop
        invariant
            i <= last,
            last + p.len() == v.len(),
            find_from(v@, p@, 0) == find_from(v@, p@, i as int),
        decreases last - i,
    {
        if matches_at(v, p, i) {
            return Some(i);
        }
        if i == last {
            assert(find_from(v@, p@, i + 1) is None);
            return None;
        }
        i += 1;
    }
}

pub fn contains_in(v: &Vec<char>, p: &Vec<char>) -> (r: bool)
    ensures
        r == contains(v@, p@),
{
    find_in(v, p).is_some()
}

/// `v` without all the copies of `p` that it starts with.
pub fn trim_prefix_all_vec(v: &Vec<char>, p: &Vec<char>) -> (r: Vec<char>)
    ensures
        r@ == trim_prefix_all(v@, p@),
{
    let mut lo: usize = 0;
    assert(v@.subrange(0, v@.len() as int) == v@);
    while p.len() > 0 && matches_at(v, p, lo)
        invariant
            lo <= v.len(),
            trim_prefix_all(v@, p@) == trim_prefix_all(v@.subrange(lo as int, v@.len() as int), p@),
        decreases v.len() - lo,
    {
        assert(v@.subrange(lo as int, v@.len() as int).subrange(p@.len() as int, v@.len() - lo)
            == v@.subrange(lo + p@.len(), v@.len() as int));
        lo += p.len();
    }
    slice_vec(v, lo, v.len())
}

/// Every non-overlapping occurrence of `p` in `v`, from the left, replaced by `q`.
pub fn replace_vec(v: &Vec<char>, p: &Vec<char>, q: &Vec<char>) -> (r: Vec<char>)
    ensures
        r@ == replace_all(v@, p@, q@),
{
    let mut out: Vec<char> = Vec::new();
    let mut i: usize = 0;
    assert(v@.subrange(0, v@.len() as int) == v@);
    while i < v.len()
        invariant
            i <= v.len(),
            out@ + replace_all(v@.subrange(i as int, v@.len() as int), p@, q@) == replace_all(v@, p@, q@),
        ensures
            i <= v.len(),
            out@ + v@.subrange(i as int, v@.len() as int) == replace_all(v@, p@, q@),
        decreases v.len() - i,
    {
        let ghost rest = v@.subrange(i as int, v@.len() as int);
        if p.len() == 0 || p.len() > v.len() - i {
            assert(replace_all(rest, p@, q@) == rest);
            break;
        }
        if matches_at(v, p, i) {
            let mut k: usize = 0;
            let ghost o = out@;
            while k < q.len()
                invariant
                    k <= q.len(),
                    out@ == o + q@.subrange(0, k as int),
                decreases q.len() - k,
            {
                out.push(q[k]);
                assert(q@.subrange(0, k + 1) == q@.subrange(0, k as int).push(q@[k as int]));
                k += 1;
            }
            assert(q@.subrange(0, q@.len() as int) == q@);
            assert(rest.subrange(p@.len() as int, rest.len() as int) == v@.subrange(i + p@.len(), v@.len() as int));
            assert(out@ + replace_all(v@.subrange(i + p@.len(), v@.len() as int), p@, q@)
                =~= o + (q@ + replace_all(v@.subrange(i + p@.len(), v@.len() as int), p@, q@)));
            i += p.len();
        } else {
            let ghost o = out@;
            out.push(v[i]);
            assert(rest.drop_first() == v@.subrange(i + 1, v@.len() as int));
            assert(out@ + replace_all(v@.subrange(i + 1, v@.len() as int), p@, q@)
                =~= o + (seq![rest[0]] + replace_all(rest.drop_first(), p@, q@)));
            i += 1;
        }
    }
    let ghost rest = v@.subrange(i as int, v@.len() as int);
    let tail = slice_vec(v, i, v.len());
    let mut k: usize = 0;
    let ghost o = out@;
    while k < tail.len()
        invariant
            k <= tail.len(),
            out@ == o + tail@.subrange(0, k as int),
        decreases tail.len() - k,
    {
        out.push(tail[k]);
        assert(tail@.subrange(0, k + 1) == tail@.subrange(0, k as int).push(tail@[k as int]));
        k += 1;
    }
    assert(tail@.subrange(0, tail@.len() as int) == tail@);
    out
}

/// Whether two texts are the same.
pub fn same_text(a: &str, b: &str) -> (r: bool)
    ensures
        r == (a@ == b@),
{
    let x = chars_of(a);
    let y = chars_of(b);
    if x.len() != y.len() {
        return false;
    }
    let r = has_prefix(&x, &y);
    assert(r ==> x@ =~= y@);
    assert(x@ == y@ ==> x@.subrange(0, y@.len() as int) == x@);
    r
}

} // verus!
