//! Editors: reading desktop entries, merging what was found, and the order in
//! which editors and terminals are tried.
use vstd::prelude::*;
use vstd::string::*;
use crate::sorting::{chars_le, keyed_views, sort_by_keys, sort_keyed, values_of};
use crate::text::{
    chars_of, contains, contains_in, has_prefix, lines_of, slice_vec, split_by, split_on,
    same_text, starts_with, string_from, text_lines, views, words, words_of,
};
use crate::types::opt_view;

verus! {

/// An editor that can open a repository.
#[derive(Clone, Debug)]
pub struct EditorInfo {
    pub name: String,
    pub command: String,
    pub icon: Option<String>,
}

impl View for EditorInfo {
    type V = (Seq<char>, Seq<char>, Option<Seq<char>>);

    open spec fn view(&self) -> (Seq<char>, Seq<char>, Option<Seq<char>>) {
        (self.name@, self.command@, opt_view(self.icon))
    }
}

/// What a desktop entry has said so far.
pub struct DesktopFields {
    pub name: Option<Seq<char>>,
    pub command: Option<Seq<char>>,
    pub icon: Option<Seq<char>>,
    pub is_editor: bool,
    /// An `Exec=` line without a command was met.
    pub broken: bool,
}

pub open spec fn no_fields() -> DesktopFields {
    DesktopFields { name: None, command: None, icon: None, is_editor: false, broken: false }
}

/// The fields after one more line of a desktop entry. The first `Name=`,
/// `Exec=` (its first word) and `Icon=` count; a text MIME type or a
/// development or editor category marks an editor.
pub open spec fn desktop_step(f: DesktopFields, l: Seq<char>) -> DesktopFields {
    if f.broken {
        f
    } else if starts_with(l, "Name="@) && f.name is None {
        DesktopFields { name: Some(l.subrange(5, l.len() as int)), ..f }
    } else if starts_with(l, "Exec="@) && f.command is None {
        let w = words(l.subrange(5, l.len() as int));
        if w.len() == 0 {
            DesktopFields { broken: true, ..f }
        } else {
            DesktopFields { command: Some(w[0]), ..f }
        }
    } else if starts_with(l, "Icon="@) && f.icon is None {
        DesktopFields { icon: Some(l.subrange(5, l.len() as int)), ..f }
    } else if starts_with(l, "MimeType="@) {
        if contains(l, "text/plain"@) || contains(l, "text/x-"@) {
            DesktopFields { is_editor: true, ..f }
        } else {
            f
        }
    } else if starts_with(l, "Categories="@) {
        if contains(l, "Development"@) || contains(l, "TextEditor"@) || contains(l, "IDE"@) {
            DesktopFields { is_editor: true, ..f }
        } else {
            f
        }
    } else {
        f
    }
}

pub open spec fn desktop_fold(ls: Seq<Seq<char>>) -> DesktopFields
    decreases ls.len(),
{
    if ls.len() == 0 {
        no_fields()
    } else {
        desktop_step(desktop_fold(ls.drop_last()), ls.last())
    }
}

/// The editor that a desktop entry describes: one marked as an editor, with a
/// name and a command.
pub open spec fn desktop_editor(content: Seq<char>) -> Option<(Seq<char>, Seq<char>, Option<Seq<char>>)> {
    let f = desktop_fold(text_lines(content));
    if !f.broken && f.is_editor && f.name is Some && f.command is Some {
        Some((f.name->0, f.command->0, f.icon))
    } else {
        None
    }
}

pub open spec fn opt_vec_view(o: Option<Vec<char>>) -> Option<Seq<char>> {
    match o {
        Some(v) => Some(v@),
        None => None,
    }
}

/// Reads the editor that a desktop entry describes, if it describes one.
pub fn parse_desktop_file(content: &str) -> (r: Option<EditorInfo>)
    ensures
        r matches Some(e) ==> desktop_editor(content@) == Some(e@),
        r is None ==> desktop_editor(content@) is None,
{
    let v = chars_of(content);
    let ls = lines_of(&v);
    let ghost lv = text_lines(content@);
    let mut name: Option<Vec<char>> = None;
    let mut cmd: Option<Vec<char>> = None;
    let mut icon: Option<Vec<char>> = None;
    let mut is_editor = false;
    let p_name = chars_of("Name=");
    let p_exec = chars_of("Exec=");
    let p_icon = chars_of("Icon=");
    let p_mime = chars_of("MimeType=");
    let p_cat = chars_of("Categories=");
    proof {
        reveal_strlit("Name=");
        reveal_strlit("Exec=");
        reveal_strlit("Icon=");
    }
    let mut i: usize = 0;
    while i < ls.len()
        invariant
            i <= ls.len(),
            views(ls@) == lv,
            lv == text_lines(content@),
            p_name@ == "Name="@,
            p_exec@ == "Exec="@,
            p_icon@ == "Icon="@,
            p_mime@ == "MimeType="@,
            p_cat@ == "Categories="@,
            p_name@.len() == 5 && p_exec@.len() == 5 && p_icon@.len() == 5,
            desktop_fold(lv.subrange(0, i as int)) == (DesktopFields {
                name: opt_vec_view(name),
                command: opt_vec_view(cmd),
                icon: opt_vec_view(icon),
                is_editor,
                broken: false,
            }),
        decreases ls.len() - i,
    {
        let ghost next = lv.subrange(0, i + 1);
        assert(next.drop_last() == lv.subrange(0, i as int));
        assert(next.last() == ls@[i as int]@);
        let l = &ls[i];
        let n = l.len();
        if has_prefix(l, &p_name) && name.is_none() {
            name = Some(slice_vec(l, 5, n));
        } else if has_prefix(l, &p_exec) && cmd.is_none() {
            let rest = slice_vec(l, 5, n);
            let w = words_of(&rest);
            if w.len() == 0 {
                assert(desktop_fold(next).broken);
                proof {
                    lemma_broken_stays(lv, i as int + 1);
                }
                assert(lv.subrange(0, lv.len() as int) == lv);
                return None;
            }
            assert(views(w@)[0] == w@[0]@);
            cmd = Some(slice_vec(&w[0], 0, w[0].len()));
            assert(w@[0]@.subrange(0, w@[0]@.len() as int) == w@[0]@);
        } else if has_prefix(l, &p_icon) && icon.is_none() {
            icon = Some(slice_vec(l, 5, n));
        } else if has_prefix(l, &p_mime) {
            if contains_in(l, &chars_of("text/plain")) || contains_in(l, &chars_of("text/x-")) {
                is_editor = true;
            }
        } else if has_prefix(l, &p_cat) {
            if contains_in(l, &chars_of("Development")) || contains_in(l, &chars_of("TextEditor"))
                || contains_in(l, &chars_of("IDE")) {
                is_editor = true;
            }
        }
        i += 1;
    }
    assert(lv.subrange(0, lv.len() as int) == lv);
    if is_editor {
        match (name, cmd) {
            (Some(n), Some(e)) => {
                let icon_s = match icon {
                    Some(c) => Some(string_from(&c)),
                    None => None,
                };
                Some(EditorInfo { name: string_from(&n), command: string_from(&e), icon: icon_s })
            },
            _ => None,
        }
    } else {
        None
    }
}

/// Once broken, a desktop entry stays broken.
proof fn lemma_broken_stays(ls: Seq<Seq<char>>, k: int)
    requires
        0 <= k <= ls.len(),
        desktop_fold(ls.subrange(0, k)).broken,
    ensures
        desktop_fold(ls).broken,
    decreases ls.len() - k,
{
    if k < ls.len() {
        assert(ls.subrange(0, k + 1).drop_last() == ls.subrange(0, k));
        lemma_broken_stays(ls, k + 1);
    } else {
        assert(ls.subrange(0, k) == ls);
    }
}

/// The last component of a `/`-separated path when it is a name: separators
/// repeat freely, `.` components do not count, and a path ending in `..` has
/// none. This is how `Path::file_name` reads a path where `/` is the separator.
pub open spec fn file_name_of(p: Seq<char>) -> Option<Seq<char>> {
    let parts = split_on(p, '/').filter(|c: Seq<char>| c.len() > 0 && c != "."@);
    if parts.len() == 0 || parts.last() == ".."@ {
        None
    } else {
        Some(parts.last())
    }
}

/// The last name in a `/`-separated path.
pub fn file_name(p: &Vec<char>) -> (r: Option<Vec<char>>)
    ensures
        opt_vec_view(r) == file_name_of(p@),
{
    let parts = split_by(p, '/');
    let ghost all = split_on(p@, '/');
    let dot = chars_of(".");
    let dots = chars_of("..");
    let mut last: Option<Vec<char>> = None;
    let mut i: usize = 0;
    while i < parts.len()
        invariant
            i <= parts.len(),
            views(parts@) == all,
            dot@ == "."@,
            ({
                let kept = all.subrange(0, i as int).filter(|c: Seq<char>| c.len() > 0 && c != "."@);
                opt_vec_view(last) == if kept.len() == 0 { None } else { Some(kept.last()) }
            }),
        decreases parts.len() - i,
    {
        let ghost pre = all.subrange(0, i as int);
        let ghost post = all.subrange(0, i + 1);
        assert(post.drop_last() =~= pre);
        assert(post.last() == parts@[i as int]@);
        proof {
            reveal(Seq::filter);
        }
        let c = &parts[i];
        let is_dot = c.len() == dot.len() && has_prefix(c, &dot);
        assert(is_dot == (c@ == "."@)) by {
            if c@ == dot@ {
                assert(c@.subrange(0, dot@.len() as int) == c@);
            }
            if is_dot {
                assert(c@ =~= dot@);
            }
        }
        if c.len() > 0 && !is_dot {
            last = Some(slice_vec(c, 0, c.len()));
            assert(c@.subrange(0, c@.len() as int) == c@);
        }
        i += 1;
    }
    assert(all.subrange(0, parts@.len() as int) == all);
    match last {
        Some(l) => {
            let is_up = l.len() == dots.len() && has_prefix(&l, &dots);
            assert(is_up == (l@ == ".."@)) by {
                if l@ == dots@ {
                    assert(l@.subrange(0, dots@.len() as int) == l@);
                }
                if is_up {
                    assert(l@ =~= dots@);
                }
            }
            if is_up { None } else { Some(l) }
        },
        None => None,
    }
}

/// The editors looked for on the search path: display name, then command.
pub open spec fn common_editors() -> Seq<(Seq<char>, Seq<char>)> {
    seq![
        ("Visual Studio Code"@, "code"@),
        ("Sublime Text"@, "subl"@),
        ("Zed"@, "zed"@),
        ("Neovim"@, "nvim"@),
        ("Vim"@, "vim"@),
        ("Gedit"@, "gedit"@),
        ("Kate"@, "kate"@),
        ("GNU Emacs"@, "emacs"@),
        ("Antigravity"@, "antigravity"@),
    ]
}

fn common_editor_list() -> (r: Vec<(String, String)>)
    ensures
        r@.map_values(|p: (String, String)| (p.0@, p.1@)) == common_editors(),
{
    let r = vec![
        ("Visual Studio Code".to_string(), "code".to_string()),
        ("Sublime Text".to_string(), "subl".to_string()),
        ("Zed".to_string(), "zed".to_string()),
        ("Neovim".to_string(), "nvim".to_string()),
        ("Vim".to_string(), "vim".to_string()),
        ("Gedit".to_string(), "gedit".to_string()),
        ("Kate".to_string(), "kate".to_string()),
        ("GNU Emacs".to_string(), "emacs".to_string()),
        ("Antigravity".to_string(), "antigravity".to_string()),
    ];
    assert(r@.map_values(|p: (String, String)| (p.0@, p.1@)) =~= common_editors());
    r
}

/// The commands of the common editors, for probing the search path.
pub fn common_editor_commands() -> (r: Vec<String>)
    ensures
        r@.map_values(|c: String| c@) == common_editors().map_values(|p: (Seq<char>, Seq<char>)| p.1),
{
    let list = common_editor_list();
    let mut r: Vec<String> = Vec::new();
    let mut i: usize = 0;
    while i < list.len()
        invariant
            i <= list.len(),
            list@.map_values(|p: (String, String)| (p.0@, p.1@)) == common_editors(),
            r@.map_values(|c: String| c@) == common_editors().subrange(0, i as int).map_values(
                |p: (Seq<char>, Seq<char>)| p.1),
        decreases list.len() - i,
    {
        assert(list@.map_values(|p: (String, String)| (p.0@, p.1@))[i as int] == (list@[i as int].0@, list@[i as int].1@));
        assert(common_editors()[i as int] == (list@[i as int].0@, list@[i as int].1@));
        let ghost prev = r@.map_values(|c: String| c@);
        r.push(list[i].1.clone());
        assert(r@.map_values(|c: String| c@) =~= prev.push(list@[i as int].1@));
        assert(r@.map_values(|c: String| c@) =~= common_editors().subrange(0, i + 1).map_values(
            |p: (Seq<char>, Seq<char>)| p.1));
        i += 1;
    }
    assert(common_editors().subrange(0, 9) =~= common_editors());
    r
}

/// The entry of `seen` with this text, if any.
fn has_text(seen: &Vec<Vec<char>>, x: &Vec<char>) -> (r: bool)
    ensures
        r == views(seen@).contains(x@),
{
    let mut i: usize = 0;
    while i < seen.len()
        invariant
            i <= seen.len(),
            forall|j: int| 0 <= j < i ==> seen@[j]@ != x@,
        decreases seen.len() - i,
    {
        let a = &seen[i];
        if a.len() == x.len() && has_prefix(a, x) {
            assert(a@ =~= x@);
            assert(views(seen@)[i as int] == x@);
            return true;
        }
        assert(a@ != x@) by {
            if a@ == x@ {
                assert(a@.subrange(0, x@.len() as int) == a@);
            }
        }
        i += 1;
    }
    assert(!views(seen@).contains(x@)) by {
        if views(seen@).contains(x@) {
            let j = choose|j: int| 0 <= j < views(seen@).len() && views(seen@)[j] == x@;
            assert(seen@[j]@ == x@);
        }
    }
    false
}

/// The key under which a command is known: its file name, or the whole
/// command when it has none.
pub open spec fn command_key(c: Seq<char>) -> Seq<char> {
    match file_name_of(c) {
        Some(n) => n,
        None => c,
    }
}

/// The editors kept while merging: those found on the search path, then each
/// desktop entry whose command and command key were not seen yet.
pub open spec fn merged_editors(
    available: Seq<Seq<char>>,
    desktop: Seq<(Seq<char>, Seq<char>, Option<Seq<char>>)>,
) -> (Seq<(Seq<char>, Seq<char>, Option<Seq<char>>)>, Seq<Seq<char>>)
    decreases desktop.len(),
{
    if desktop.len() == 0 {
        let found = common_editors().filter(|p: (Seq<char>, Seq<char>)| available.contains(p.1));
        (found.map_values(|p: (Seq<char>, Seq<char>)| (p.0, p.1, None::<Seq<char>>)),
            found.map_values(|p: (Seq<char>, Seq<char>)| p.1))
    } else {
        let (list, seen) = merged_editors(available, desktop.drop_last());
        let e = desktop.last();
        let key = command_key(e.1);
        if !seen.contains(e.1) && !seen.contains(key) {
            (list.push(e), seen.push(e.1).push(key))
        } else {
            (list, seen)
        }
    }
}

pub open spec fn editor_views(v: Seq<EditorInfo>) -> Seq<(Seq<char>, Seq<char>, Option<Seq<char>>)> {
    v.map_values(|e: EditorInfo| e@)
}

/// The editors to offer: the common editors whose commands are `available`,
/// and the desktop entries whose commands are not already offered, sorted by
/// name; editors of equal names keep their order.
pub open spec fn offered_editors(
    available: Seq<Seq<char>>,
    desktop: Seq<(Seq<char>, Seq<char>, Option<Seq<char>>)>,
) -> Seq<(Seq<char>, Seq<char>, Option<Seq<char>>)> {
    values_of(sort_keyed(merged_editors(available, desktop).0.map_values(
        |e: (Seq<char>, Seq<char>, Option<Seq<char>>)| (e.0, e))))
}

fn text_views(v: &Vec<String>) -> (r: Vec<Vec<char>>)
    ensures
        views(r@) == v@.map_values(|a: String| a@),
{
    let mut r: Vec<Vec<char>> = Vec::new();
    let mut i: usize = 0;
    while i < v.len()
        invariant
            i <= v.len(),
            views(r@) == v@.subrange(0, i as int).map_values(|a: String| a@),
        decreases v.len() - i,
    {
        let ghost prev = views(r@);
        let c = chars_of(v[i].as_str());
        r.push(c);
        assert(views(r@) =~= prev.push(v@[i as int]@));
        assert(views(r@) =~= v@.subrange(0, i + 1).map_values(|a: String| a@));
        i += 1;
    }
    assert(v@.subrange(0, v@.len() as int) == v@);
    r
}

/// The editors to offer, from the commands found on the search path and the
/// editors of the desktop entries, in this order.
pub fn detect_editors(available: &Vec<String>, desktop: Vec<EditorInfo>) -> (r: Vec<EditorInfo>)
    ensures
        editor_views(r@) == offered_editors(available@.map_values(|a: String| a@), editor_views(desktop@)),
        forall|i: int| 0 <= i < r@.len() - 1 ==> chars_le((#[trigger] r@[i]).name@, r@[i + 1].name@),
{
    let ghost av = available@.map_values(|a: String| a@);
    let avail = text_views(available);
    let commons = common_editor_list();
    let ghost cv = common_editors();
    let mut list: Vec<EditorInfo> = Vec::new();
    let mut seen: Vec<Vec<char>> = Vec::new();
    let mut i: usize = 0;
    while i < commons.len()
        invariant
            i <= commons.len(),
            views(avail@) == av,
            commons@.map_values(|p: (String, String)| (p.0@, p.1@)) == cv,
            cv == common_editors(),
            ({
                let found = cv.subrange(0, i as int).filter(|p: (Seq<char>, Seq<char>)| av.contains(p.1));
                &&& editor_views(list@) == found.map_values(|p: (Seq<char>, Seq<char>)| (p.0, p.1, None::<Seq<char>>))
                &&& views(seen@) == found.map_values(|p: (Seq<char>, Seq<char>)| p.1)
            }),
        decreases commons.len() - i,
    {
        let ghost pre = cv.subrange(0, i as int);
        let ghost post = cv.subrange(0, i + 1);
        assert(post.drop_last() =~= pre);
        assert(commons@.map_values(|p: (String, String)| (p.0@, p.1@))[i as int] == (commons@[i as int].0@, commons@[i as int].1@));
        assert(post.last() == (commons@[i as int].0@, commons@[i as int].1@));
        proof {
            reveal(Seq::filter);
        }
        let bin = chars_of(commons[i].1.as_str());
        if has_text(&avail, &bin) {
            let ghost lb = editor_views(list@);
            let ghost sb = views(seen@);
            list.push(EditorInfo { name: commons[i].0.clone(), command: commons[i].1.clone(), icon: None });
            seen.push(bin);
            assert(editor_views(list@) =~= lb.push((commons@[i as int].0@, commons@[i as int].1@, None::<Seq<char>>)));
            assert(views(seen@) =~= sb.push(commons@[i as int].1@));
        }
        i += 1;
    }
    assert(cv.subrange(0, 9) =~= cv);
    let ghost dv = editor_views(desktop@);
    let ghost n = dv.len();
    let mut rest = desktop;
    while rest.len() > 0
        invariant
            n == dv.len(),
            rest@.len() <= n,
            views(avail@) == av,
            editor_views(rest@) == dv.subrange(n - rest@.len(), n as int),
            (editor_views(list@), views(seen@)) == merged_editors(av, dv.subrange(0, n - rest@.len())),
        decreases rest.len(),
    {
        let ghost k = n - rest@.len();
        let ghost r0 = rest@;
        let e = rest.remove(0);
        assert(rest@ =~= r0.subrange(1, r0.len() as int));
        assert(editor_views(r0)[0] == r0[0]@);
        assert(editor_views(r0.subrange(1, r0.len() as int)) =~= editor_views(r0).subrange(1, r0.len() as int));
        assert(editor_views(rest@) =~= dv.subrange(k + 1, n as int));
        assert(dv[k] == e@);
        let ghost post = dv.subrange(0, k + 1);
        assert(post.drop_last() =~= dv.subrange(0, k));
        let cmd = chars_of(e.command.as_str());
        let key = match file_name(&cmd) {
            Some(f) => f,
            None => slice_vec(&cmd, 0, cmd.len()),
        };
        assert(cmd@.subrange(0, cmd@.len() as int) == cmd@);
        assert(key@ == command_key(e.command@));
        if !has_text(&seen, &cmd) && !has_text(&seen, &key) {
            let ghost lb = editor_views(list@);
            let ghost sb = views(seen@);
            list.push(e);
            seen.push(cmd);
            seen.push(key);
            assert(editor_views(list@) =~= lb.push(e@));
            assert(views(seen@) =~= sb.push(e.command@).push(key@));
        }
    }
    assert(dv.subrange(0, n as int) =~= dv);
    let ghost merged = list@;
    let mut keyed: Vec<(Vec<char>, EditorInfo)> = Vec::new();
    let ghost m = merged.len();
    let mut src = list;
    while src.len() > 0
        invariant
            m == merged.len(),
            src@.len() <= m,
            src@ == merged.subrange(m - src@.len(), m as int),
            keyed_views(keyed@) == merged.subrange(0, m - src@.len()).map_values(|x: EditorInfo| (x.name@, x)),
        decreases src.len(),
    {
        let ghost k = m - src@.len();
        let ghost s0 = src@;
        let x = src.remove(0);
        assert(src@ =~= s0.subrange(1, s0.len() as int));
        let key = chars_of(x.name.as_str());
        let ghost kb = keyed_views(keyed@);
        keyed.push((key, x));
        assert(keyed_views(keyed@) =~= kb.push((key@, x)));
        assert(merged.subrange(0, k + 1) =~= merged.subrange(0, k).push(x));
        assert(keyed_views(keyed@) =~= merged.subrange(0, k + 1).map_values(|x: EditorInfo| (x.name@, x)));
    }
    assert(merged.subrange(0, m as int) =~= merged);
    let ghost ks = merged.map_values(|x: EditorInfo| (x.name@, x));
    let r = sort_by_keys(keyed);
    proof {
        let g = |x: EditorInfo| x@;
        crate::sorting::lemma_sort_map(ks, g);
        let mv = merged_editors(av, dv).0;
        assert(crate::sorting::map_keyed(ks, g) =~= mv.map_values(
            |e: (Seq<char>, Seq<char>, Option<Seq<char>>)| (e.0, e)));
        assert(editor_views(r@) =~= values_of(crate::sorting::map_keyed(sort_keyed(ks), g)));
        let f = |e: (Seq<char>, Seq<char>, Option<Seq<char>>)| e.0;
        crate::sorting::lemma_values_ordered(mv, f);
        assert(mv.map_values(|e: (Seq<char>, Seq<char>, Option<Seq<char>>)| (e.0, e)) =~= mv.map_values(
            |e: (Seq<char>, Seq<char>, Option<Seq<char>>)| (f(e), e)));
        assert forall|i: int| 0 <= i < r@.len() - 1 implies chars_le((#[trigger] r@[i]).name@, r@[i + 1].name@) by {
            assert(editor_views(r@)[i] == r@[i]@);
            assert(editor_views(r@)[i + 1] == r@[i + 1]@);
        }
    }
    r
}

/// A program to start: its path or name, its arguments, and whether only a
/// successful exit counts (otherwise, starting it is enough).
#[derive(Clone, Debug)]
pub struct Launch {
    pub program: String,
    pub args: Vec<String>,
    pub needs_success: bool,
}

impl View for Launch {
    type V = (Seq<char>, Seq<Seq<char>>, bool);

    open spec fn view(&self) -> (Seq<char>, Seq<Seq<char>>, bool) {
        (self.program@, self.args@.map_values(|a: String| a@), self.needs_success)
    }
}

pub open spec fn launch_views(v: Seq<Launch>) -> Seq<(Seq<char>, Seq<Seq<char>>, bool)> {
    v.map_values(|l: Launch| l@)
}

fn launch(program: &str, args: Vec<String>, needs_success: bool) -> (r: Launch)
    ensures
        r@ == (program@, args@.map_values(|a: String| a@), needs_success),
{
    Launch { program: program.to_string(), args, needs_success }
}

/// The terminals tried, in order, to open a directory.
pub open spec fn terminal_plan(dir: Seq<char>) -> Seq<(Seq<char>, Seq<Seq<char>>, bool)> {
    seq![
        ("gnome-terminal"@, seq!["--working-directory"@, dir], false),
        ("konsole"@, seq!["--workdir"@, dir], false),
        ("xfce4-terminal"@, seq!["--working-directory"@, dir], false),
        ("terminator"@, seq!["--working-directory"@, dir], false),
        ("kitty"@, seq!["--directory"@, dir], false),
        ("alacritty"@, seq!["--working-directory"@, dir], false),
        ("x-terminal-emulator"@, Seq::empty(), false),
    ]
}

/// The terminals to try, in order, to open `dir`; the first that starts wins.
pub fn terminal_candidates(dir: &String) -> (r: Vec<Launch>)
    ensures
        launch_views(r@) == terminal_plan(dir@),
{
    let r = vec![
        launch("gnome-terminal", vec!["--working-directory".to_string(), dir.clone()], false),
        launch("konsole", vec!["--workdir".to_string(), dir.clone()], false),
        launch("xfce4-terminal", vec!["--working-directory".to_string(), dir.clone()], false),
        launch("terminator", vec!["--working-directory".to_string(), dir.clone()], false),
        launch("kitty", vec!["--directory".to_string(), dir.clone()], false),
        launch("alacritty", vec!["--working-directory".to_string(), dir.clone()], false),
        launch("x-terminal-emulator", Vec::new(), false),
    ];
    assert(launch_views(r@) =~~= terminal_plan(dir@));
    r
}

/// The editors tried when none is preferred, in order.
pub open spec fn default_editor_commands() -> Seq<Seq<char>> {
    seq!["code"@, "subl"@, "zed"@, "nvim"@, "vim"@, "antigravity"@, "gedit"@, "kate"@, "mousepad"@]
}

/// The first position of `x` in `s` from `i` on.
pub open spec fn position_from(s: Seq<Seq<char>>, x: Seq<char>, i: int) -> Option<int>
    decreases s.len() - i,
{
    if i < 0 || i >= s.len() {
        None
    } else if s[i] == x {
        Some(i)
    } else {
        position_from(s, x, i + 1)
    }
}

/// `s` with its first `x`, if any, moved to the front.
pub open spec fn to_front(s: Seq<Seq<char>>, x: Seq<char>) -> Seq<Seq<char>> {
    match position_from(s, x, 0) {
        Some(k) => seq![s[k]] + s.remove(k),
        None => s,
    }
}

/// A preference that names an editor: present, not empty and not `auto`.
pub open spec fn names_editor(preferred: Option<Seq<char>>) -> bool {
    preferred is Some && preferred->0.len() > 0 && preferred->0 != "auto"@
}

/// How a preferred editor is started first: directly when it is a path,
/// through the shell otherwise.
pub open spec fn preferred_launch(p: Seq<char>, target: Seq<char>) -> (Seq<char>, Seq<Seq<char>>, bool) {
    if contains(p, "/"@) {
        (p, seq![target], true)
    } else {
        ("sh"@, seq!["-c"@, p + " \""@ + target + "\""@], true)
    }
}

/// The programs tried, in order, to open `target` in an editor.
pub open spec fn editor_plan(target: Seq<char>, preferred: Option<Seq<char>>) -> Seq<(Seq<char>, Seq<Seq<char>>, bool)> {
    let cmds = if names_editor(preferred) {
        to_front(default_editor_commands(), preferred->0)
    } else {
        default_editor_commands()
    };
    let listed = cmds.map_values(|c: Seq<char>| (c, seq![target], true));
    let first = if names_editor(preferred) {
        seq![preferred_launch(preferred->0, target)]
    } else {
        Seq::empty()
    };
    first + listed + seq![("xdg-open"@, seq![target], false)]
}

/// The programs to try, in order, to open `target` in an editor, the preferred
/// one first; the first that succeeds wins.
pub fn editor_candidates(target: &String, preferred: Option<String>) -> (r: Vec<Launch>)
    ensures
        launch_views(r@) == editor_plan(target@, opt_view(preferred)),
{
    let ghost pv = opt_view(preferred);
    let mut cmds: Vec<String> = vec![
        "code".to_string(), "subl".to_string(), "zed".to_string(), "nvim".to_string(), "vim".to_string(),
        "antigravity".to_string(), "gedit".to_string(), "kate".to_string(), "mousepad".to_string(),
    ];
    assert(cmds@.map_values(|c: String| c@) =~= default_editor_commands());
    let mut out: Vec<Launch> = Vec::new();
    let active = match &preferred {
        Some(p) => p.as_str().unicode_len() > 0 && !same_text(p.as_str(), "auto"),
        None => false,
    };
    assert(active == names_editor(pv));
    if let Some(p) = &preferred {
        if active {
            let pc = chars_of(p.as_str());
            if contains_in(&pc, &chars_of("/")) {
                let a = vec![target.clone()];
                assert(seq![target@] =~= a@.map_values(|a: String| a@));
                out.push(launch(p.as_str(), a, true));
            } else {
                let mut line = p.clone();
                line.append(" \"");
                line.append(target.as_str());
                line.append("\"");
                assert(line@ =~= p@ + " \""@ + target@ + "\""@);
                let a = vec!["-c".to_string(), line];
                assert(a@.map_values(|a: String| a@) =~= seq!["-c"@, p@ + " \""@ + target@ + "\""@]);
                out.push(launch("sh", a, true));
            }
            assert(launch_views(out@) =~~= seq![preferred_launch(p@, target@)]);
            let ghost cv = cmds@.map_values(|c: String| c@);
            let mut k: usize = 0;
            let mut found: Option<usize> = None;
            while k < cmds.len()
                invariant
                    k <= cmds.len(),
                    cmds@.map_values(|c: String| c@) == cv,
                    cv == default_editor_commands(),
                    found is None ==> position_from(cv, p@, 0) == position_from(cv, p@, k as int),
                    found matches Some(j) ==> position_from(cv, p@, 0) == Some(j as int) && j < cmds.len(),
                decreases cmds.len() - k,
            {
                if found.is_none() && same_text(cmds[k].as_str(), p.as_str()) {
                    found = Some(k);
                }
                k += 1;
            }
            if let Some(j) = found {
                let c = cmds.remove(j);
                cmds.insert(0, c);
                assert(cmds@.map_values(|c: String| c@) =~= to_front(cv, p@));
            } else {
                assert(cmds@.map_values(|c: String| c@) =~= to_front(cv, p@));
            }
        }
    }
    let ghost head = launch_views(out@);
    let ghost cv2 = cmds@.map_values(|c: String| c@);
    let mut i: usize = 0;
    while i < cmds.len()
        invariant
            i <= cmds.len(),
            cmds@.map_values(|c: String| c@) == cv2,
            launch_views(out@) == head + cv2.subrange(0, i as int).map_values(|c: Seq<char>| (c, seq![target@], true)),
        decreases cmds.len() - i,
    {
        let ghost ob = launch_views(out@);
        let a = vec![target.clone()];
        assert(a@.map_values(|a: String| a@) =~= seq![target@]);
        let l = launch(cmds[i].as_str(), a, true);
        out.push(l);
        assert(cv2[i as int] == cmds@[i as int]@);
        assert(launch_views(out@) =~= ob.push((cv2[i as int], seq![target@], true)));
        assert(launch_views(out@) =~= head + cv2.subrange(0, i + 1).map_values(|c: Seq<char>| (c, seq![target@], true)));
        i += 1;
    }
    assert(cv2.subrange(0, cmds@.len() as int) =~= cv2);
    let ghost ob = launch_views(out@);
    let a = vec![target.clone()];
    assert(a@.map_values(|a: String| a@) =~= seq![target@]);
    out.push(launch("xdg-open", a, false));
    assert(launch_views(out@) =~= ob.push(("xdg-open"@, seq![target@], false)));
    out
}

} // verus!
