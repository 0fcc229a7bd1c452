use vstd::prelude::*;
use vstd::string::*;
use crate::config::opt_view;
use crate::utils::order::{
    is_sorted_dedup, is_stable_sort, sort_by_name, sort_dedup_by_name, Named,
};
use crate::utils::text::{
    chars_of, eq_str, find_char, lemma_find_char, line_ranges, lines, parse_u32_range, parse_u32_spec,
    path_join, path_join_spec, range_starts_with, replace_all, replace_range, starts_with,
    string_of, trim, trim_range, word_ranges, words,
};

verus! {

/// A user account that can log in.
pub struct SystemUser {
    /// The login name.
    pub user_name: String,
    /// The name shown for the user.
    pub real_name: String,
}

impl Named for SystemUser {
    open spec fn name_view(&self) -> Seq<char> {
        self.user_name@
    }

    fn name_str(&self) -> (r: &str) {
        self.user_name.as_str()
    }
}

/// One entry of the password database, as far as the greeter reads it.
pub struct PasswdEntry {
    /// The login name.
    pub name: String,
    /// The numeric user id.
    pub uid: u32,
    /// The GECOS field, if the entry has one.
    pub gecos: Option<String>,
}

/// The range of user ids of ordinary (human) accounts.
pub struct NormalUser {
    /// Smallest user id of an ordinary account.
    pub uid_min: u32,
    /// Largest user id of an ordinary account.
    pub uid_max: u32,
}

impl Default for NormalUser {
    fn default() -> (r: Self)
        ensures
            r.uid_min == 1000,
            r.uid_max == 60000,
    {
        NormalUser { uid_min: 1000, uid_max: 60000 }
    }
}

/// The login.defs keys `UID_MIN` and `UID_MAX` after reading the lines
/// `ls` from the top: a trimmed line starting with a key sets it to its
/// second word parsed as a `u32` (unset again when that does not parse);
/// a line with no second word changes nothing.
pub open spec fn defs_scan(ls: Seq<Seq<char>>) -> (Option<u32>, Option<u32>)
    decreases ls.len(),
{
    if ls.len() == 0 {
        (None, None)
    } else {
        let prev = defs_scan(ls.drop_last());
        let line = trim(ls.last());
        if starts_with(line, "UID_MIN"@) {
            if words(line).len() > 1 {
                (parse_u32_spec(words(line)[1]), prev.1)
            } else {
                prev
            }
        } else if starts_with(line, "UID_MAX"@) {
            if words(line).len() > 1 {
                (prev.0, parse_u32_spec(words(line)[1]))
            } else {
                prev
            }
        } else {
            prev
        }
    }
}

/// Law: a line of login.defs that, trimmed, starts with neither `UID_MIN`
/// nor `UID_MAX` (such as `SYS_UID_MIN 201`) changes neither bound.
pub proof fn lemma_other_defs_lines_ignored(c1: Seq<char>, c2: Seq<char>, l: Seq<char>)
    requires
        lines(c2) == lines(c1).push(l),
        !starts_with(trim(l), "UID_MIN"@),
        !starts_with(trim(l), "UID_MAX"@),
    ensures
        normal_range(Some(c2)) == normal_range(Some(c1)),
{
    assert(lines(c1).push(l).drop_last() =~= lines(c1));
}

/// Law: a line of login.defs that, trimmed, starts with `UID_MIN` leaves
/// the upper bound as it was, and one with a second word sets the lower
/// bound to that word read as a `u32` (unset when it is no such number);
/// likewise a `UID_MAX` line for the upper bound.
pub proof fn lemma_uid_lines_set_their_bound(ls: Seq<Seq<char>>, l: Seq<char>)
    ensures
        starts_with(trim(l), "UID_MIN"@) ==> {
            &&& defs_scan(ls.push(l)).1 == defs_scan(ls).1
            &&& words(trim(l)).len() > 1 ==> defs_scan(ls.push(l)).0 == parse_u32_spec(words(trim(l))[1])
            &&& words(trim(l)).len() <= 1 ==> defs_scan(ls.push(l)).0 == defs_scan(ls).0
        },
        !starts_with(trim(l), "UID_MIN"@) && starts_with(trim(l), "UID_MAX"@) ==> {
            &&& defs_scan(ls.push(l)).0 == defs_scan(ls).0
            &&& words(trim(l)).len() > 1 ==> defs_scan(ls.push(l)).1 == parse_u32_spec(words(trim(l))[1])
            &&& words(trim(l)).len() <= 1 ==> defs_scan(ls.push(l)).1 == defs_scan(ls).1
        },
{
    assert(ls.push(l).drop_last() =~= ls);
}

/// Law: without login.defs, or with one that sets neither bound, the
/// ordinary user ids are 1000 to 60000.
pub proof fn lemma_default_uid_range(c: Seq<char>)
    requires
        forall|i: int| 0 <= i < lines(c).len() ==> !starts_with(trim(#[trigger] lines(c)[i]), "UID_MIN"@)
            && !starts_with(trim(lines(c)[i]), "UID_MAX"@),
    ensures
        normal_range(None) == (1000u32, 60000u32),
        normal_range(Some(c)) == (1000u32, 60000u32),
{
    lemma_defs_scan_unset(lines(c));
}

proof fn lemma_defs_scan_unset(ls: Seq<Seq<char>>)
    requires
        forall|i: int| 0 <= i < ls.len() ==> !starts_with(trim(#[trigger] ls[i]), "UID_MIN"@) && !starts_with(
            trim(ls[i]),
            "UID_MAX"@,
        ),
    ensures
        defs_scan(ls) == (None::<u32>, None::<u32>),
    decreases ls.len(),
{
    if ls.len() > 0 {
        let init = ls.drop_last();
        assert forall|i: int| 0 <= i < init.len() implies !starts_with(trim(#[trigger] init[i]), "UID_MIN"@)
            && !starts_with(trim(init[i]), "UID_MAX"@) by {
            assert(init[i] == ls[i]);
        }
        lemma_defs_scan_unset(init);
        assert(ls.last() == ls[ls.len() - 1]);
    }
}

/// An optional value, or a default.
pub open spec fn or_default(o: Option<u32>, d: u32) -> u32 {
    match o {
        Some(v) => v,
        None => d,
    }
}

/// The user id range read from the contents of login.defs (`None` when
/// the file could not be read): each bound the file sets, else 1000 and
/// 60000.
pub open spec fn normal_range(content: Option<Seq<char>>) -> (u32, u32) {
    match content {
        None => (1000, 60000),
        Some(c) => {
            let (mn, mx) = defs_scan(lines(c));
            (or_default(mn, 1000), or_default(mx, 60000))
        },
    }
}

/// The second word of `v[lo..hi]` parsed as a `u32`, when there is a
/// second word.
fn second_word_u32(v: &Vec<char>, lo: usize, hi: usize) -> (r: Option<Option<u32>>)
    requires
        lo <= hi <= v@.len(),
    ensures
        words(v@.subrange(lo as int, hi as int)).len() > 1 ==> r == Some(
            parse_u32_spec(words(v@.subrange(lo as int, hi as int))[1]),
        ),
        words(v@.subrange(lo as int, hi as int)).len() <= 1 ==> r is None,
{
    let ws = word_ranges(v, lo, hi);
    if ws.len() > 1 {
        let (a, b) = ws[1];
        Some(parse_u32_range(v, a, b))
    } else {
        None
    }
}

impl NormalUser {
    /// The range of ordinary user ids given the contents of login.defs,
    /// or `None` when that file could not be read.
    pub fn load(content: Option<String>) -> (r: Self)
        ensures
            (r.uid_min, r.uid_max) == normal_range(opt_view(content)),
    {
        let def = NormalUser::default();
        let text = match content {
            Some(t) => t,
            None => {
                return def;
            },
        };
        let v = chars_of(text.as_str());
        let ls = line_ranges(&v);
        let mut min: Option<u32> = None;
        let mut max: Option<u32> = None;
        let mut k: usize = 0;
        while k < ls.len()
            invariant
                v@ == text@,
                ls@.len() == lines(v@).len(),
                forall|j: int| 0 <= j < ls@.len() ==> {
                    &&& (#[trigger] ls@[j]).0 <= ls@[j].1 <= v@.len()
                    &&& v@.subrange(ls@[j].0 as int, ls@[j].1 as int) == lines(v@)[j]
                },
                0 <= k <= ls@.len(),
                (min, max) == defs_scan(lines(v@).take(k as int)),
            decreases ls@.len() - k,
        {
            let (lo, hi) = ls[k];
            let (a, b) = trim_range(&v, lo, hi);
            proof {
                assert(lines(v@).take(k + 1).drop_last() =~= lines(v@).take(k as int));
                assert(lines(v@).take(k + 1).last() == lines(v@)[k as int]);
            }
            if range_starts_with(&v, a, b, "UID_MIN") {
                match second_word_u32(&v, a, b) {
                    Some(val) => {
                        min = val;
                    },
                    None => {},
                }
            } else if range_starts_with(&v, a, b, "UID_MAX") {
                match second_word_u32(&v, a, b) {
                    Some(val) => {
                        max = val;
                    },
                    None => {},
                }
            }
            k += 1;
        }
        proof {
            assert(lines(v@).take(ls@.len() as int) =~= lines(v@));
        }
        NormalUser {
            uid_min: match min {
                Some(x) => x,
                None => def.uid_min,
            },
            uid_max: match max {
                Some(x) => x,
                None => def.uid_max,
            },
        }
    }

    /// Whether `uid` belongs to an ordinary account.
    pub fn is_normal_user(&self, uid: u32) -> (r: bool)
        ensures
            r == (self.uid_min <= uid && uid <= self.uid_max),
    {
        uid >= self.uid_min && uid <= self.uid_max
    }
}

/// A desktop session that can be started after login.
pub struct SystemSession {
    /// The name shown for the session.
    pub name: String,
    /// The command that starts it (the `exec` of the session file).
    pub exec_cmd: String,
}

impl Named for SystemSession {
    open spec fn name_view(&self) -> Seq<char> {
        self.name@
    }

    fn name_str(&self) -> (r: &str) {
        self.name.as_str()
    }
}

/// The first line of `ls` that, trimmed, starts with `p`; trimmed.
pub open spec fn first_line_with(ls: Seq<Seq<char>>, p: Seq<char>) -> Option<Seq<char>>
    decreases ls.len(),
{
    if ls.len() == 0 {
        None
    } else {
        match first_line_with(ls.drop_last(), p) {
            Some(l) => Some(l),
            None => if starts_with(trim(ls.last()), p) {
                Some(trim(ls.last()))
            } else {
                None
            },
        }
    }
}

/// Law: `first_line_with` gives the first line that, trimmed, starts with
/// `p` (trimmed), and nothing when no line does.
pub proof fn lemma_first_line_with(ls: Seq<Seq<char>>, p: Seq<char>)
    ensures
        match first_line_with(ls, p) {
            Some(l) => exists|i: int|
                0 <= i < ls.len() && l == trim(ls[i]) && #[trigger] starts_with(trim(ls[i]), p) && forall|j: int|
                    0 <= j < i ==> !starts_with(trim(#[trigger] ls[j]), p),
            None => forall|j: int| 0 <= j < ls.len() ==> !starts_with(trim(#[trigger] ls[j]), p),
        },
    decreases ls.len(),
{
    if ls.len() > 0 {
        let init = ls.drop_last();
        lemma_first_line_with(init, p);
        match first_line_with(init, p) {
            Some(l) => {
                let i = choose|i: int|
                    0 <= i < init.len() && l == trim(init[i]) && #[trigger] starts_with(trim(init[i]), p) && forall|
                        j: int,
                    | 0 <= j < i ==> !starts_with(trim(#[trigger] init[j]), p);
                assert(ls[i] == init[i]);
                assert forall|j: int| 0 <= j < i implies !starts_with(trim(#[trigger] ls[j]), p) by {
                    assert(ls[j] == init[j]);
                }
            },
            None => {
                assert forall|j: int| 0 <= j < ls.len() - 1 implies !starts_with(trim(#[trigger] ls[j]), p) by {
                    assert(ls[j] == init[j]);
                }
                let k = ls.len() - 1;
                assert(ls.last() == ls[k]);
                if starts_with(trim(ls[k]), p) {
                    assert(starts_with(trim(ls[k]), p));
                }
            },
        }
    }
}

/// The session a `.desktop` file describes: the first `Name=` line and
/// the first `Exec=` line, each with every `Name=` (or `Exec=`) in it
/// removed; none unless both lines are there.
pub open spec fn desktop_entry(content: Seq<char>) -> Option<(Seq<char>, Seq<char>)> {
    let ls = lines(content);
    match (first_line_with(ls, "Name="@), first_line_with(ls, "Exec="@)) {
        (Some(n), Some(e)) => Some((replace_all(n, "Name="@, Seq::empty()), replace_all(e, "Exec="@, Seq::empty()))),
        _ => None,
    }
}

/// The view of an optional session.
pub open spec fn session_view(s: Option<SystemSession>) -> Option<(Seq<char>, Seq<char>)> {
    match s {
        Some(x) => Some((x.name@, x.exec_cmd@)),
        None => None,
    }
}

/// The session a `.desktop` file with contents `content` describes.
pub fn parse_desktop_file(content: &str) -> (r: Option<SystemSession>)
    ensures
        session_view(r) == desktop_entry(content@),
{
    let v = chars_of(content);
    let ls = line_ranges(&v);
    let mut name: Option<(usize, usize)> = None;
    let mut exec: Option<(usize, usize)> = None;
    let mut k: usize = 0;
    while k < ls.len()
        invariant
            v@ == content@,
            ls@.len() == lines(v@).len(),
            forall|j: int| 0 <= j < ls@.len() ==> {
                &&& (#[trigger] ls@[j]).0 <= ls@[j].1 <= v@.len()
                &&& v@.subrange(ls@[j].0 as int, ls@[j].1 as int) == lines(v@)[j]
            },
            0 <= k <= ls@.len(),
            match name {
                Some(b) => b.0 <= b.1 <= v@.len() && first_line_with(lines(v@).take(k as int), "Name="@) == Some(
                    v@.subrange(b.0 as int, b.1 as int),
                ),
                None => first_line_with(lines(v@).take(k as int), "Name="@) is None,
            },
            match exec {
                Some(b) => b.0 <= b.1 <= v@.len() && first_line_with(lines(v@).take(k as int), "Exec="@) == Some(
                    v@.subrange(b.0 as int, b.1 as int),
                ),
                None => first_line_with(lines(v@).take(k as int), "Exec="@) is None,
            },
        decreases ls@.len() - k,
    {
        let (lo, hi) = ls[k];
        let (a, b) = trim_range(&v, lo, hi);
        proof {
            assert(lines(v@).take(k + 1).drop_last() =~= lines(v@).take(k as int));
            assert(lines(v@).take(k + 1).last() == lines(v@)[k as int]);
        }
        if name.is_none() && range_starts_with(&v, a, b, "Name=") {
            proof {
                reveal_strlit("Name=");
                reveal_strlit("Exec=");
                let l = v@.subrange(a as int, b as int);
                assert(l.take(5)[0] == 'N');
                assert(!starts_with(l, "Exec="@));
            }
            name = Some((a, b));
        } else if exec.is_none() && range_starts_with(&v, a, b, "Exec=") {
            exec = Some((a, b));
        }
        k += 1;
    }
    proof {
        assert(lines(v@).take(ls@.len() as int) =~= lines(v@));
        reveal_strlit("Name=");
        reveal_strlit("Exec=");
    }
    match (name, exec) {
        (Some((na, nb)), Some((ea, eb))) => {
            let n = replace_range(&v, na, nb, "Name=", "");
            let e = replace_range(&v, ea, eb, "Exec=", "");
            proof {
                reveal_strlit("");
                assert(""@ =~= Seq::<char>::empty());
            }
            Some(SystemSession { name: n, exec_cmd: e })
        },
        _ => None,
    }
}

/// The sessions listed in greetd's environments file: each trimmed line
/// that is not empty and does not start with `#`.
pub open spec fn env_lines(ls: Seq<Seq<char>>) -> Seq<Seq<char>>
    decreases ls.len(),
{
    if ls.len() == 0 {
        Seq::empty()
    } else {
        let prev = env_lines(ls.drop_last());
        let l = trim(ls.last());
        if l.len() > 0 && l[0] != '#' {
            prev.push(l)
        } else {
            prev
        }
    }
}

/// The view of a list of sessions: names and commands.
pub open spec fn sessions_view(s: Seq<SystemSession>) -> Seq<(Seq<char>, Seq<char>)> {
    s.map_values(|x: SystemSession| (x.name@, x.exec_cmd@))
}

/// The sessions of greetd's environments file with contents `content`;
/// each is named by its own command.
pub fn parse_environments(content: &str) -> (r: Vec<SystemSession>)
    ensures
        r@.len() == env_lines(lines(content@)).len(),
        forall|k: int| 0 <= k < r@.len() ==> (#[trigger] r@[k]).name@ == env_lines(lines(content@))[k]
            && r@[k].exec_cmd@ == env_lines(lines(content@))[k],
{
    let v = chars_of(content);
    let ls = line_ranges(&v);
    let mut r: Vec<SystemSession> = Vec::new();
    let mut k: usize = 0;
    while k < ls.len()
        invariant
            v@ == content@,
            ls@.len() == lines(v@).len(),
            forall|j: int| 0 <= j < ls@.len() ==> {
                &&& (#[trigger] ls@[j]).0 <= ls@[j].1 <= v@.len()
                &&& v@.subrange(ls@[j].0 as int, ls@[j].1 as int) == lines(v@)[j]
            },
            0 <= k <= ls@.len(),
            r@.len() == env_lines(lines(v@).take(k as int)).len(),
            forall|j: int| 0 <= j < r@.len() ==> (#[trigger] r@[j]).name@ == env_lines(lines(v@).take(k as int))[j]
                && r@[j].exec_cmd@ == env_lines(lines(v@).take(k as int))[j],
        decreases ls@.len() - k,
    {
        let (lo, hi) = ls[k];
        let (a, b) = trim_range(&v, lo, hi);
        proof {
            assert(lines(v@).take(k + 1).drop_last() =~= lines(v@).take(k as int));
            assert(lines(v@).take(k + 1).last() == lines(v@)[k as int]);
        }
        if a < b && v[a] != '#' {
            let line = string_of(&v, a, b);
            let line2 = line.clone();
            r.push(SystemSession { name: line, exec_cmd: line2 });
        }
        k += 1;
    }
    proof {
        assert(lines(v@).take(ls@.len() as int) =~= lines(v@));
    }
    r
}

/// The pieces of `s` between the separators `c` (`str::split`).
pub open spec fn split_on(s: Seq<char>, c: char) -> Seq<Seq<char>>
    decreases s.len(),
{
    let i = find_char(s, c);
    if i < 0 {
        seq![s]
    } else {
        proof {
            lemma_find_char(s, c);
        }
        seq![s.take(i)] + split_on(s.skip(i + 1), c)
    }
}

/// The non-empty pieces of `ps`.
pub open spec fn non_empty(ps: Seq<Seq<char>>) -> Seq<Seq<char>>
    decreases ps.len(),
{
    if ps.len() == 0 {
        Seq::empty()
    } else if ps.last().len() == 0 {
        non_empty(ps.drop_last())
    } else {
        non_empty(ps.drop_last()).push(ps.last())
    }
}

/// The XDG data directories: the value of `XDG_DATA_DIRS` (when set)
/// or `/usr/local/share:/usr/share`, split at `:`, empty entries skipped.
pub open spec fn data_dirs_spec(xdg: Option<Seq<char>>) -> Seq<Seq<char>> {
    let value = match xdg {
        Some(x) => x,
        None => "/usr/local/share:/usr/share"@,
    };
    non_empty(split_on(value, ':'))
}

/// The directories scanned for sessions: for each XDG data directory,
/// its `wayland-sessions` and then its `xsessions` directory.
pub open spec fn session_dirs_spec(xdg: Option<Seq<char>>) -> Seq<Seq<char>> {
    let ds = data_dirs_spec(xdg);
    Seq::new(
        2 * ds.len(),
        |i: int|
            if i % 2 == 0 {
                path_join_spec(ds[i / 2], "wayland-sessions"@)
            } else {
                path_join_spec(ds[i / 2], "xsessions"@)
            },
    )
}

impl SystemSession {
    /// The directories to scan for `.desktop` session files, given the
    /// value of `XDG_DATA_DIRS` (`None` when it is not set).
    pub fn session_dirs(xdg: Option<String>) -> (r: Vec<String>)
        ensures
            r@.len() == session_dirs_spec(opt_view(xdg)).len(),
            forall|k: int| 0 <= k < r@.len() ==> (#[trigger] r@[k])@ == session_dirs_spec(opt_view(xdg))[k],
    {
        let value = match xdg {
            Some(x) => x,
            None => String::from_str("/usr/local/share:/usr/share"),
        };
        let ghost ds = data_dirs_spec(opt_view(xdg));
        let v = chars_of(value.as_str());
        let ghost pieces = split_on(v@, ':');
        let mut r: Vec<String> = Vec::new();
        let ghost mut seen: Seq<Seq<char>> = Seq::empty();
        let n = v.len();
        let mut pos: usize = 0;
        let mut more = true;
        assert(v@.skip(0) =~= v@);
        while more
            invariant
                n == v@.len(),
                0 <= pos <= n,
                ds == non_empty(pieces),
                pieces == split_on(v@, ':'),
                more ==> pieces == seen + split_on(v@.skip(pos as int), ':'),
                !more ==> pieces == seen,
                r@.len() == 2 * non_empty(seen).len(),
                forall|k: int| 0 <= k < r@.len() ==> (#[trigger] r@[k])@ == if k % 2 == 0 {
                    path_join_spec(non_empty(seen)[k / 2], "wayland-sessions"@)
                } else {
                    path_join_spec(non_empty(seen)[k / 2], "xsessions"@)
                },
            decreases n - pos, if more { 1int } else { 0int },
        {
            let ghost rest = v@.skip(pos as int);
            let mut e = pos;
            while e < n && v[e] != ':'
                invariant
                    pos <= e <= n,
                    n == v@.len(),
                    forall|j: int| pos <= j < e ==> v@[j] != ':',
                decreases n - e,
            {
                e += 1;
            }
            proof {
                lemma_find_char(rest, ':');
                if e < n {
                    lemma_find_char_first_split(rest, ':', e - pos);
                    assert(rest.take(e - pos) =~= v@.subrange(pos as int, e as int));
                    assert(rest.skip(e - pos + 1) =~= v@.skip(e + 1));
                } else {
                    assert forall|j: int| 0 <= j < rest.len() implies rest[j] != ':' by {
                        assert(rest[j] == v@[pos + j]);
                    }
                    assert(find_char(rest, ':') < 0);
                    assert(rest =~= v@.subrange(pos as int, e as int));
                }
            }
            let ghost piece = v@.subrange(pos as int, e as int);
            let ghost old_seen = seen;
            proof {
                seen = seen.push(piece);
                assert(seen.drop_last() == old_seen);
            }
            if e > pos {
                let dir = string_of(&v, pos, e);
                let w = path_join(dir.as_str(), "wayland-sessions");
                let x = path_join(dir.as_str(), "xsessions");
                r.push(w);
                r.push(x);
                proof {
                    assert(non_empty(seen) == non_empty(old_seen).push(piece));
                    assert forall|k: int| 0 <= k < r@.len() implies (#[trigger] r@[k])@ == if k % 2 == 0 {
                        path_join_spec(non_empty(seen)[k / 2], "wayland-sessions"@)
                    } else {
                        path_join_spec(non_empty(seen)[k / 2], "xsessions"@)
                    } by {
                        if k < r@.len() - 2 {
                            assert(non_empty(seen)[k / 2] == non_empty(old_seen)[k / 2]);
                        } else {
                            assert(k / 2 == non_empty(old_seen).len());
                        }
                    }
                }
            } else {
                proof {
                    assert(piece.len() == 0);
                    assert(non_empty(seen) == non_empty(old_seen));
                }
            }
            if e < n {
                proof {
                    assert(old_seen + split_on(rest, ':') =~= seen + split_on(v@.skip(e + 1), ':'));
                }
                pos = e + 1;
            } else {
                proof {
                    assert(split_on(rest, ':') == seq![rest]);
                    assert(old_seen + split_on(rest, ':') =~= seen);
                }
                more = false;
                pos = n;
            }
        }
        proof {
            let sd = session_dirs_spec(opt_view(xdg));
            assert(opt_view(xdg) matches Some(x) ==> x == value@);
            if xdg is None {
                assert(value@ == "/usr/local/share:/usr/share"@);
            }
            assert forall|k: int| 0 <= k < r@.len() implies (#[trigger] r@[k])@ == sd[k] by {
            }
        }
        r
    }
}

/// The index found by `find_char` is the first separator.
proof fn lemma_find_char_first_split(s: Seq<char>, c: char, i: int)
    requires
        0 <= i < s.len(),
        s[i] == c,
        forall|j: int| 0 <= j < i ==> s[j] != c,
    ensures
        find_char(s, c) == i,
{
    lemma_find_char(s, c);
}

/// Index of the last `c` in `s`, or -1.
pub open spec fn rfind_char(s: Seq<char>, c: char) -> int
    decreases s.len(),
{
    if s.len() == 0 {
        -1
    } else if s.last() == c {
        s.len() - 1
    } else {
        rfind_char(s.drop_last(), c)
    }
}

/// Whether a file name has the extension `desktop` (`Path::extension`:
/// the text after the last dot, when something comes before that dot).
pub open spec fn has_desktop_extension(file_name: Seq<char>) -> bool {
    let i = rfind_char(file_name, '.');
    i > 0 && file_name.skip(i + 1) == "desktop"@
}

/// Whether a directory entry named `file_name` is a session file.
pub fn is_desktop_file(file_name: &str) -> (r: bool)
    ensures
        r == has_desktop_extension(file_name@),
{
    let v = chars_of(file_name);
    let n = v.len();
    let mut i = n;
    assert(v@.take(n as int) =~= v@);
    while i > 0 && v[i - 1] != '.'
        invariant
            v@ == file_name@,
            n == v@.len(),
            0 <= i <= n,
            rfind_char(v@, '.') == rfind_char(v@.take(i as int), '.'),
        decreases i,
    {
        assert(v@.take(i as int).drop_last() =~= v@.take(i - 1));
        i -= 1;
    }
    proof {
        assert(v@.take(n as int) =~= v@);
    }
    if i <= 1 {
        proof {
            if i == 1 {
                assert(v@.take(1).last() == '.');
            }
        }
        return false;
    }
    proof {
        assert(v@.take(i as int).last() == '.');
        assert(rfind_char(v@, '.') == i - 1);
    }
    let ext = string_of(&v, i, n);
    proof {
        assert(v@.skip(i as int) =~= v@.subrange(i as int, n as int));
    }
    eq_str(ext.as_str(), "desktop")
}

impl SystemSession {
    /// All sessions: those read from session files, in the order they were
    /// scanned, then those of greetd's environments file (`None` when it
    /// could not be read), ordered by name with only the first session of
    /// each name kept.
    pub fn all(scanned: Vec<SystemSession>, environments: Option<String>) -> (r: Vec<SystemSession>)
        ensures
            exists|envs: Seq<SystemSession>, p: Seq<int>|
                {
                    &&& sessions_view(envs) == match opt_view(environments) {
                        Some(c) => env_lines(lines(c)).map_values(|l: Seq<char>| (l, l)),
                        None => Seq::empty(),
                    }
                    &&& is_sorted_dedup(r@, scanned@ + envs, p)
                },
    {
        let mut all = scanned;
        let ghost head = all@;
        let envs = match &environments {
            Some(c) => parse_environments(c.as_str()),
            None => Vec::new(),
        };
        let ghost envs_view = envs@;
        proof {
            let expected = match opt_view(environments) {
                Some(c) => env_lines(lines(c)).map_values(|l: Seq<char>| (l, l)),
                None => Seq::<(Seq<char>, Seq<char>)>::empty(),
            };
            assert(sessions_view(envs_view) =~= expected);
        }
        let mut envs = envs;
        all.append(&mut envs);
        let r = sort_dedup_by_name(all);
        proof {
            assert(all@ == head + envs_view);
        }
        r
    }
}

/// The name shown for a password-database user: the first
/// comma-separated field of the GECOS field, or the login name when there
/// is no GECOS field or it is empty.
pub open spec fn gecos_name(user: Seq<char>, gecos: Option<Seq<char>>) -> Seq<char> {
    match gecos {
        None => user,
        Some(g) => if g.len() == 0 {
            user
        } else {
            let i = find_char(g, ',');
            if i < 0 {
                g
            } else {
                g.take(i)
            }
        },
    }
}

/// The view of a list of users: login and shown names.
pub open spec fn users_view(s: Seq<SystemUser>) -> Seq<(Seq<char>, Seq<char>)> {
    s.map_values(|u: SystemUser| (u.user_name@, u.real_name@))
}

/// The users of the password-database entries `es` whose user id is in
/// `[lo, hi]`, in order, as (login, shown name).
pub open spec fn passwd_selection(es: Seq<PasswdEntry>, lo: u32, hi: u32) -> Seq<(Seq<char>, Seq<char>)>
    decreases es.len(),
{
    if es.len() == 0 {
        Seq::empty()
    } else {
        let prev = passwd_selection(es.drop_last(), lo, hi);
        let e = es.last();
        if lo <= e.uid && e.uid <= hi {
            prev.push((e.name@, gecos_name(e.name@, opt_view(e.gecos))))
        } else {
            prev
        }
    }
}

/// The users with a non-empty login name, in order.
pub open spec fn with_login(s: Seq<SystemUser>) -> Seq<SystemUser>
    decreases s.len(),
{
    if s.len() == 0 {
        Seq::empty()
    } else if s.last().user_name@.len() == 0 {
        with_login(s.drop_last())
    } else {
        with_login(s.drop_last()).push(s.last())
    }
}

impl SystemUser {
    /// The name shown for a password-database user.
    pub fn real_name_from_gecos(user: &String, gecos: &Option<String>) -> (r: String)
        ensures
            r@ == gecos_name(user@, opt_view(*gecos)),
    {
        match gecos {
            None => user.clone(),
            Some(g) => {
                let v = chars_of(g.as_str());
                if v.len() == 0 {
                    user.clone()
                } else {
                    let mut i: usize = 0;
                    while i < v.len() && v[i] != ','
                        invariant
                            0 <= i <= v@.len(),
                            forall|j: int| 0 <= j < i ==> v@[j] != ',',
                        decreases v@.len() - i,
                    {
                        i += 1;
                    }
                    proof {
                        lemma_find_char(v@, ',');
                        if i < v.len() {
                            lemma_find_char_first_split(v@, ',', i as int);
                        } else {
                            assert(find_char(v@, ',') < 0);
                            assert(v@.subrange(0, i as int) =~= v@);
                        }
                        assert(v@.take(i as int) =~= v@.subrange(0, i as int));
                    }
                    string_of(&v, 0, i)
                }
            },
        }
    }

    /// The ordinary users of the password database (`entries`, in the
    /// order the database lists them), ordered by login name.
    pub fn from_passwd(entries: Vec<PasswdEntry>, normal: &NormalUser) -> (r: Vec<SystemUser>)
        ensures
            exists|sel: Seq<SystemUser>, p: Seq<int>|
                users_view(sel) == passwd_selection(entries@, normal.uid_min, normal.uid_max)
                    && is_stable_sort(r@, sel, p),
    {
        let ghost es = entries@;
        let mut users: Vec<SystemUser> = Vec::new();
        let mut k: usize = 0;
        while k < entries.len()
            invariant
                es == entries@,
                0 <= k <= es.len(),
                users_view(users@) == passwd_selection(es.take(k as int), normal.uid_min, normal.uid_max),
            decreases es.len() - k,
        {
            let e = &entries[k];
            proof {
                assert(es.take(k + 1).drop_last() =~= es.take(k as int));
                assert(es.take(k + 1).last() == es[k as int]);
            }
            if normal.is_normal_user(e.uid) {
                let user_name = e.name.clone();
                let real_name = SystemUser::real_name_from_gecos(&e.name, &e.gecos);
                let ghost before = users@;
                users.push(SystemUser { user_name, real_name });
                proof {
                    assert(users_view(users@) =~= users_view(before).push((e.name@, gecos_name(e.name@, opt_view(e.gecos)))));
                }
            }
            k += 1;
        }
        proof {
            assert(es.take(es.len() as int) =~= es);
        }
        sort_by_name(users)
    }

    /// The users AccountsService reported, as (login, shown name), keeping
    /// those with a login name, ordered by login name.
    pub fn from_dbus(found: Vec<SystemUser>) -> (r: Vec<SystemUser>)
        ensures
            exists|p: Seq<int>| is_stable_sort(r@, with_login(found@), p),
    {
        let ghost s = found@;
        let mut found = found;
        let mut kept: Vec<SystemUser> = Vec::new();
        let n = found.len();
        let mut i: usize = 0;
        while i < n
            invariant
                n == s.len(),
                0 <= i <= n,
                found@ == s.skip(i as int),
                kept@ == with_login(s.take(i as int)),
            decreases n - i,
        {
            let u = found.remove(0);
            proof {
                assert(u == s[i as int]);
                assert(found@ =~= s.skip(i + 1));
                assert(s.take(i + 1).drop_last() =~= s.take(i as int));
                assert(s.take(i + 1).last() == s[i as int]);
            }
            if u.user_name.unicode_len() > 0 {
                kept.push(u);
            }
            i += 1;
        }
        proof {
            assert(s.take(n as int) =~= s);
        }
        sort_by_name(kept)
    }

    /// The users to offer: those AccountsService reported (`None` when it
    /// could not be asked) unless it reported none, else those of the
    /// password database.
    pub fn all(dbus: Option<Vec<SystemUser>>, passwd: Vec<SystemUser>) -> (r: Vec<SystemUser>)
        ensures
            r@ == match dbus {
                Some(v) => if v@.len() > 0 {
                    v@
                } else {
                    passwd@
                },
                None => passwd@,
            },
    {
        match dbus {
            Some(v) => if v.len() > 0 {
                v
            } else {
                passwd
            },
            None => passwd,
        }
    }
}

} // verus!
