//! Icon-name resolution. A token (an icon name, a lowercased window class,
//! or a path) is turned into an ordered plan of filesystem and theme probes;
//! the first probe that finds something decides the result. The probes are
//! answered by a capability that the caller injects, and every result,
//! including a miss, is kept in a cache for the life of the resolver.
use crate::text::{
    after_last, after_last_char, chars_of, clone_opt, concat, has_prefix, opt_view, split_char,
    split_on, starts_with, string_of, strings_view,
};
use vstd::prelude::*;

verus! {

/// One question put to the environment while resolving.
pub enum Probe {
    /// Does this directory exist?
    Dir(String),
    /// Does this file exist, and what is its canonical path?
    File(String),
    /// What is the icon theme's first candidate file for this name, and its
    /// canonical path?
    Theme(String),
}

pub enum ProbeView {
    Dir(Seq<char>),
    File(Seq<char>),
    Theme(Seq<char>),
}

impl View for Probe {
    type V = ProbeView;

    open spec fn view(&self) -> ProbeView {
        match self {
            Probe::Dir(s) => ProbeView::Dir(s@),
            Probe::File(s) => ProbeView::File(s@),
            Probe::Theme(s) => ProbeView::Theme(s@),
        }
    }
}

/// The environment's answer to a probe.
pub enum Answer {
    /// Nothing there.
    Absent,
    /// Something there: the path found (for a file probe, the probed path)
    /// and its canonical form, where canonicalisation succeeded.
    Found { path: String, canonical: Option<String> },
}

pub enum AnswerView {
    Absent,
    Found(Seq<char>, Option<Seq<char>>),
}

impl View for Answer {
    type V = AnswerView;

    open spec fn view(&self) -> AnswerView {
        match self {
            Answer::Absent => AnswerView::Absent,
            Answer::Found { path, canonical } => AnswerView::Found(path@, opt_view(*canonical)),
        }
    }
}

pub open spec fn probes_view(v: Seq<Probe>) -> Seq<ProbeView> {
    v.map_values(|p: Probe| p@)
}

pub open spec fn is_absolute(s: Seq<char>) -> bool {
    s.len() > 0 && s[0] == '/'
}

/// `name` appended to `dir` as `Path::join` does it: an absolute `name`
/// replaces `dir`, and one separator stands between the two.
pub open spec fn join_path(dir: Seq<char>, name: Seq<char>) -> Seq<char> {
    if is_absolute(name) || dir.len() == 0 {
        name
    } else if dir.last() == '/' {
        dir + name
    } else {
        dir + seq!['/'] + name
    }
}

/// The icon directories under one XDG data directory.
pub open spec fn data_dir_bases(d: Seq<char>) -> Seq<Seq<char>> {
    seq![
        join_path(d, "icons/hicolor/48x48/apps"@),
        join_path(d, "icons/hicolor/32x32/apps"@),
        join_path(d, "icons/hicolor/128x128/apps"@),
        join_path(d, "icons/hicolor/scalable/apps"@),
        join_path(d, "pixmaps"@),
        join_path(d, "icons"@),
    ]
}

/// The icon directories under the user's local data directory.
pub open spec fn local_dir_bases(d: Seq<char>) -> Seq<Seq<char>> {
    seq![
        join_path(d, "icons/hicolor/48x48/apps"@),
        join_path(d, "icons/hicolor/32x32/apps"@),
        join_path(d, "icons/hicolor/128x128/apps"@),
        join_path(d, "icons/hicolor/scalable/apps"@),
        join_path(d, "icons"@),
    ]
}

/// The icon directories under the user's home directory.
pub open spec fn home_dir_bases(h: Seq<char>) -> Seq<Seq<char>> {
    seq![
        join_path(h, ".steam/root/appcache/librarycache"@),
        join_path(h, ".local/share/icons/hicolor/48x48/apps"@),
    ]
}

/// The XDG data directories: the entries of `XDG_DATA_DIRS`, or the
/// defaults where it is unset.
pub open spec fn data_dirs(xdg: Option<Seq<char>>) -> Seq<Seq<char>> {
    match xdg {
        Some(x) => split_on(x, ':'),
        None => seq!["/usr/share"@, "/usr/local/share"@],
    }
}

pub open spec fn bases_of_dirs(ds: Seq<Seq<char>>) -> Seq<Seq<char>>
    decreases ds.len(),
{
    if ds.len() == 0 {
        seq![]
    } else {
        bases_of_dirs(ds.drop_last()) + data_dir_bases(ds.last())
    }
}

/// The ordered base directories of the heuristic search.
pub open spec fn icon_search_dirs(
    xdg: Option<Seq<char>>,
    local: Option<Seq<char>>,
    home: Option<Seq<char>>,
) -> Seq<Seq<char>> {
    bases_of_dirs(data_dirs(xdg)) + match local {
        Some(l) => local_dir_bases(l),
        None => seq![],
    } + match home {
        Some(h) => home_dir_bases(h),
        None => seq![],
    }
}

pub open spec fn opt_str_view(o: Option<&str>) -> Option<Seq<char>> {
    match o {
        Some(s) => Some(s@),
        None => None,
    }
}

/// The last segment of `segs` that is neither empty nor `.`.
pub open spec fn last_named(segs: Seq<Seq<char>>) -> Option<Seq<char>>
    decreases segs.len(),
{
    if segs.len() == 0 {
        None
    } else if segs.last().len() == 0 || segs.last() == seq!['.'] {
        last_named(segs.drop_last())
    } else {
        Some(segs.last())
    }
}

/// The last component of a path as `Path::components` yields it: empty
/// segments (repeated or trailing separators) and `.` segments are skipped.
pub open spec fn last_component(s: Seq<char>) -> Option<Seq<char>> {
    last_named(split_on(s, '/'))
}

/// The file name of a path, as `Path::file_name` gives it: its last
/// component, unless that is `..` or there is none.
pub open spec fn path_file_name(s: Seq<char>) -> Option<Seq<char>> {
    match last_component(s) {
        Some(n) => if n == seq!['.', '.'] {
            None
        } else {
            Some(n)
        },
        None => None,
    }
}

/// Whether the last component of `b` is `librarycache`, as
/// `Path::ends_with("librarycache")` has it.
pub open spec fn is_library_cache(b: Seq<char>) -> bool {
    last_component(b) == Some("librarycache"@)
}

/// The Steam cache file tried first in a `librarycache` directory for a
/// `steam_icon_<app-id>` token: `<app-id>_icon.jpg`.
pub open spec fn steam_probes(b: Seq<char>, token: Seq<char>) -> Seq<ProbeView> {
    if is_library_cache(b) && has_prefix(token, "steam_icon_"@) {
        seq![
            ProbeView::File(
                join_path(
                    b,
                    token.subrange("steam_icon_"@.len() as int, token.len() as int) + "_icon.jpg"@,
                ),
            ),
        ]
    } else {
        seq![]
    }
}

/// The probes for one base directory: the directory itself, then the Steam
/// file where it applies, then `<token>.<ext>` for each extension in order.
pub open spec fn base_probes(b: Seq<char>, token: Seq<char>) -> Seq<ProbeView> {
    seq![ProbeView::Dir(b)] + steam_probes(b, token) + seq![
        ProbeView::File(join_path(b, token + "."@ + "png"@)),
        ProbeView::File(join_path(b, token + "."@ + "svg"@)),
        ProbeView::File(join_path(b, token + "."@ + "xpm"@)),
        ProbeView::File(join_path(b, token + "."@ + "ico"@)),
        ProbeView::File(join_path(b, token + "."@ + "jpg"@)),
    ]
}

pub open spec fn search_probes(bases: Seq<Seq<char>>, token: Seq<char>) -> Seq<ProbeView>
    decreases bases.len(),
{
    if bases.len() == 0 {
        seq![]
    } else {
        search_probes(bases.drop_last(), token) + base_probes(bases.last(), token)
    }
}

/// The stem of a file name: without its extension, unless the only dot
/// leads the name.
pub open spec fn file_stem(name: Seq<char>) -> Seq<char> {
    let ext = after_last(name, '.');
    if ext.len() == name.len() || ext.len() + 1 == name.len() {
        name
    } else {
        name.subrange(0, name.len() - ext.len() - 1)
    }
}

/// The name to look up once more in the theme when all else failed: the
/// stem of the token's file name (as `Path::file_stem` has it), where the
/// token has a file name and the stem differs from the token.
pub open spec fn stem_retry(token: Seq<char>) -> Option<Seq<char>> {
    match path_file_name(token) {
        Some(name) => if file_stem(name) == token {
            None
        } else {
            Some(file_stem(name))
        },
        None => None,
    }
}

/// The whole resolution, in order: the token itself where it is an absolute
/// path, the theme, the heuristic search, the stem in the theme.
pub open spec fn resolution_plan(token: Seq<char>, bases: Seq<Seq<char>>) -> Seq<ProbeView> {
    (if is_absolute(token) {
        seq![ProbeView::File(token)]
    } else {
        seq![]
    }) + seq![ProbeView::Theme(token)] + search_probes(bases, token) + match stem_retry(token) {
        Some(s) => seq![ProbeView::Theme(s)],
        None => seq![],
    }
}

/// What a plan yields from probe `i` on, when the environment answers as
/// `oracle` says. `skipping` holds after a missing directory: the file probes
/// under it are passed over.
pub open spec fn outcome(
    plan: Seq<ProbeView>,
    i: nat,
    skipping: bool,
    oracle: spec_fn(ProbeView) -> AnswerView,
) -> Option<Seq<char>>
    decreases plan.len() - i,
{
    if i >= plan.len() {
        None
    } else if skipping && plan[i as int] is File {
        outcome(plan, i + 1, true, oracle)
    } else if plan[i as int] is Dir {
        outcome(plan, i + 1, oracle(plan[i as int]) is Absent, oracle)
    } else {
        match oracle(plan[i as int]) {
            AnswerView::Found(path, canonical) => match canonical {
                Some(c) => Some(c),
                None => Some(path),
            },
            AnswerView::Absent => outcome(plan, i + 1, false, oracle),
        }
    }
}

/// What resolving `token` yields when the environment answers as `oracle`.
pub open spec fn resolved(
    token: Seq<char>,
    bases: Seq<Seq<char>>,
    oracle: spec_fn(ProbeView) -> AnswerView,
) -> Option<Seq<char>> {
    outcome(resolution_plan(token, bases), 0, false, oracle)
}

/// Whether every answer of `probe` is the one that `oracle` gives.
pub open spec fn answers_as<F: Fn(&Probe) -> Answer>(
    probe: F,
    oracle: spec_fn(ProbeView) -> AnswerView,
) -> bool {
    forall|p: &Probe, a: Answer| #[trigger] probe.ensures((p,), a) ==> a@ == oracle(p@)
}

/// The path that an answer offers: its canonical form where there is one.
pub open spec fn answer_path(a: AnswerView) -> Option<Seq<char>> {
    match a {
        AnswerView::Found(path, canonical) => match canonical {
            Some(c) => Some(c),
            None => Some(path),
        },
        AnswerView::Absent => None,
    }
}

/// Whether `v` is a path that `probe` may answer with.
pub open spec fn offers<F: Fn(&Probe) -> Answer>(probe: F, v: Option<Seq<char>>) -> bool {
    v is Some ==> exists|p: &Probe, a: Answer|
        #[trigger] probe.ensures((p,), a) && answer_path(a@) == v
}

/// Whether `r` is a path that `probe` may answer with.
pub open spec fn offered_by<F: Fn(&Probe) -> Answer>(probe: F, r: Option<String>) -> bool {
    offers(probe, opt_view(r))
}

/// `name` joined to `dir`.
pub fn join(dir: &str, name: &str) -> (r: String)
    ensures
        r@ == join_path(dir@, name@),
{
    let ns = chars_of(name);
    let ds = chars_of(dir);
    if (ns.len() > 0 && ns[0] == '/') || ds.len() == 0 {
        name.to_string()
    } else if ds[ds.len() - 1] == '/' {
        concat(dir, name)
    } else {
        let with_sep = concat(dir, "/");
        assert("/"@ == seq!['/']) by {
            reveal_strlit("/");
        }
        concat(with_sep.as_str(), name)
    }
}

fn push_joined(out: &mut Vec<String>, dir: &str, name: &str)
    ensures
        strings_view(final(out)@) == strings_view(old(out)@).push(join_path(dir@, name@)),
{
    let j = join(dir, name);
    out.push(j);
    assert(strings_view(final(out)@) =~= strings_view(old(out)@).push(join_path(dir@, name@)));
}

fn push_data_dir_bases(out: &mut Vec<String>, d: &str)
    ensures
        strings_view(final(out)@) == strings_view(old(out)@) + data_dir_bases(d@),
{
    push_joined(out, d, "icons/hicolor/48x48/apps");
    push_joined(out, d, "icons/hicolor/32x32/apps");
    push_joined(out, d, "icons/hicolor/128x128/apps");
    push_joined(out, d, "icons/hicolor/scalable/apps");
    push_joined(out, d, "pixmaps");
    push_joined(out, d, "icons");
    assert(strings_view(final(out)@) =~= strings_view(old(out)@) + data_dir_bases(d@));
}

/// The ordered base directories of the heuristic search, from the value of
/// `XDG_DATA_DIRS` and the user's local data and home directories.
pub fn search_dirs(
    xdg_data_dirs: Option<&str>,
    data_local_dir: Option<&str>,
    home_dir: Option<&str>,
) -> (r: Vec<String>)
    ensures
        strings_view(r@) == icon_search_dirs(
            opt_str_view(xdg_data_dirs),
            opt_str_view(data_local_dir),
            opt_str_view(home_dir),
        ),
{
    let dirs = match xdg_data_dirs {
        Some(x) => split_char(x, ':'),
        None => {
            let mut v: Vec<String> = Vec::new();
            v.push("/usr/share".to_string());
            v.push("/usr/local/share".to_string());
            assert(strings_view(v@) =~= seq!["/usr/share"@, "/usr/local/share"@]);
            v
        },
    };
    let ghost ds = strings_view(dirs@);
    let mut out: Vec<String> = Vec::new();
    let mut i: usize = 0;
    while i < dirs.len()
        invariant
            i <= dirs@.len(),
            ds == strings_view(dirs@),
            strings_view(out@) == bases_of_dirs(ds.subrange(0, i as int)),
        decreases dirs@.len() - i,
    {
        assert(ds.subrange(0, i + 1).drop_last() == ds.subrange(0, i as int));
        push_data_dir_bases(&mut out, dirs[i].as_str());
        i += 1;
    }
    assert(ds.subrange(0, dirs@.len() as int) == ds);
    let ghost searched = strings_view(out@);
    match data_local_dir {
        Some(l) => {
            push_joined(&mut out, l, "icons/hicolor/48x48/apps");
            push_joined(&mut out, l, "icons/hicolor/32x32/apps");
            push_joined(&mut out, l, "icons/hicolor/128x128/apps");
            push_joined(&mut out, l, "icons/hicolor/scalable/apps");
            push_joined(&mut out, l, "icons");
            assert(strings_view(out@) =~= searched + local_dir_bases(l@));
        },
        None => {
            assert(strings_view(out@) =~= searched + Seq::<Seq<char>>::empty());
        },
    }
    let ghost with_local = strings_view(out@);
    match home_dir {
        Some(h) => {
            push_joined(&mut out, h, ".steam/root/appcache/librarycache");
            push_joined(&mut out, h, ".local/share/icons/hicolor/48x48/apps");
            assert(strings_view(out@) =~= with_local + home_dir_bases(h@));
        },
        None => {
            assert(strings_view(out@) =~= with_local + Seq::<Seq<char>>::empty());
        },
    }
    out
}

proof fn lemma_after_last_len(s: Seq<char>, c: char)
    ensures
        after_last(s, c).len() <= s.len(),
    decreases s.len(),
{
    if s.len() > 0 && s.last() != c {
        lemma_after_last_len(s.drop_last(), c);
    }
}

/// The last component of a path, empty and `.` segments skipped.
pub fn last_component_of(path: &str) -> (r: Option<String>)
    ensures
        opt_view(r) == last_component(path@),
{
    let segs = split_char(path, '/');
    let ghost sv = strings_view(segs@);
    let mut end = segs.len();
    assert(sv.subrange(0, sv.len() as int) == sv);
    loop
        invariant
            end <= segs@.len(),
            sv == strings_view(segs@),
            sv == split_on(path@, '/'),
            last_named(sv) == last_named(sv.subrange(0, end as int)),
        decreases end,
    {
        if end == 0 {
            return None;
        }
        let seg = &segs[end - 1];
        let sc = chars_of(seg.as_str());
        let is_dot = sc.len() == 1 && sc[0] == '.';
        assert(is_dot == (seg@ == seq!['.'])) by {
            if is_dot {
                assert(seg@ =~= seq!['.']);
            }
        }
        assert(sv.subrange(0, end as int).last() == seg@);
        if sc.len() == 0 || is_dot {
            assert(sv.subrange(0, end as int).drop_last() == sv.subrange(0, end - 1));
            end -= 1;
        } else {
            return Some(seg.clone());
        }
    }
}

/// Whether the last component of `b` is `librarycache`.
pub fn is_library_cache_dir(b: &str) -> (r: bool)
    ensures
        r == is_library_cache(b@),
{
    match last_component_of(b) {
        Some(n) => n == "librarycache".to_string(),
        None => false,
    }
}

fn push_file(out: &mut Vec<Probe>, b: &str, token: &str, ext: &str)
    ensures
        probes_view(final(out)@) == probes_view(old(out)@).push(
            ProbeView::File(join_path(b@, token@ + "."@ + ext@)),
        ),
{
    let dotted = concat(token, ".");
    let name = concat(dotted.as_str(), ext);
    let p = Probe::File(join(b, name.as_str()));
    out.push(p);
    assert(probes_view(final(out)@) =~= probes_view(old(out)@).push(p@));
}

fn push_base_probes(out: &mut Vec<Probe>, b: &str, token: &str)
    ensures
        probes_view(final(out)@) == probes_view(old(out)@) + base_probes(b@, token@),
{
    let d = Probe::Dir(b.to_string());
    out.push(d);
    assert(probes_view(out@) =~= probes_view(old(out)@) + seq![ProbeView::Dir(b@)]);
    if is_library_cache_dir(b) && starts_with(token, "steam_icon_") {
        let cs = chars_of(token);
        let plen = "steam_icon_".unicode_len();
        let app_id = string_of(&cs, plen, cs.len());
        let file = concat(app_id.as_str(), "_icon.jpg");
        let p = Probe::File(join(b, file.as_str()));
        out.push(p);
        assert(probes_view(out@) =~= probes_view(old(out)@) + seq![ProbeView::Dir(b@)]
            + steam_probes(b@, token@));
    } else {
        assert(probes_view(out@) =~= probes_view(old(out)@) + seq![ProbeView::Dir(b@)]
            + steam_probes(b@, token@));
    }
    let ghost before = probes_view(out@);
    push_file(out, b, token, "png");
    push_file(out, b, token, "svg");
    push_file(out, b, token, "xpm");
    push_file(out, b, token, "ico");
    push_file(out, b, token, "jpg");
    assert(probes_view(final(out)@) =~= probes_view(old(out)@) + base_probes(b@, token@));
}

/// The stem of the file name `name`.
pub fn file_stem_of(name: &str) -> (r: String)
    ensures
        r@ == file_stem(name@),
{
    let ext = after_last_char(name, '.');
    proof {
        lemma_after_last_len(name@, '.');
    }
    let nc = chars_of(name);
    let el = ext.as_str().unicode_len();
    if el == nc.len() || el + 1 == nc.len() {
        name.to_string()
    } else {
        string_of(&nc, 0, nc.len() - el - 1)
    }
}

/// The stem to look up in the theme when everything else failed, if any.
pub fn stem_retry_of(token: &str) -> (r: Option<String>)
    ensures
        opt_view(r) == stem_retry(token@),
{
    let name = match last_component_of(token) {
        Some(n) => n,
        None => {
            return None;
        },
    };
    let nc = chars_of(name.as_str());
    let is_dot_dot = nc.len() == 2 && nc[0] == '.' && nc[1] == '.';
    assert(is_dot_dot == (name@ == seq!['.', '.'])) by {
        if is_dot_dot {
            assert(name@ =~= seq!['.', '.']);
        }
    }
    if is_dot_dot {
        return None;
    }
    let stem = file_stem_of(name.as_str());
    if stem == token.to_string() {
        None
    } else {
        Some(stem)
    }
}

/// The ordered probes that resolve `token` against the base directories.
pub fn plan_for(token: &str, bases: &Vec<String>) -> (r: Vec<Probe>)
    ensures
        probes_view(r@) == resolution_plan(token@, strings_view(bases@)),
{
    let mut out: Vec<Probe> = Vec::new();
    let tc = chars_of(token);
    if tc.len() > 0 && tc[0] == '/' {
        out.push(Probe::File(token.to_string()));
    }
    out.push(Probe::Theme(token.to_string()));
    let ghost head = probes_view(out@);
    assert(head =~= (if is_absolute(token@) {
        seq![ProbeView::File(token@)]
    } else {
        seq![]
    }) + seq![ProbeView::Theme(token@)]);
    let ghost bv = strings_view(bases@);
    let mut i: usize = 0;
    while i < bases.len()
        invariant
            i <= bases@.len(),
            bv == strings_view(bases@),
            probes_view(out@) == head + search_probes(bv.subrange(0, i as int), token@),
        decreases bases@.len() - i,
    {
        let ghost sofar = search_probes(bv.subrange(0, i as int), token@);
        assert(bv.subrange(0, i + 1).drop_last() == bv.subrange(0, i as int));
        push_base_probes(&mut out, bases[i].as_str(), token);
        assert(probes_view(out@) =~= head + search_probes(bv.subrange(0, i + 1), token@));
        i += 1;
    }
    assert(bv.subrange(0, bases@.len() as int) == bv);
    let ghost body = probes_view(out@);
    match stem_retry_of(token) {
        Some(s) => {
            let p = Probe::Theme(s);
            out.push(p);
            assert(probes_view(out@) =~= body + seq![p@]);
        },
        None => {
            assert(probes_view(out@) =~= body + Seq::<ProbeView>::empty());
        },
    }
    out
}

/// Resolves `token` without a cache: asks `probe` the plan's questions in
/// order and returns the first path found. Where `probe` answers as some
/// `oracle` does, the result is what the plan yields under that oracle.
pub fn resolve_uncached<F: Fn(&Probe) -> Answer>(token: &str, bases: &Vec<String>, probe: F) -> (r:
    Option<String>)
    requires
        forall|p: &Probe| probe.requires((p,)),
    ensures
        offered_by(probe, r),
        forall|oracle: spec_fn(ProbeView) -> AnswerView|
            answers_as(probe, oracle) ==> opt_view(r) == resolved(
                token@,
                strings_view(bases@),
                oracle,
            ),
{
    let plan = plan_for(token, bases);
    let ghost pv = probes_view(plan@);
    let mut i: usize = 0;
    let mut skipping = false;
    while i < plan.len()
        invariant
            i <= plan@.len(),
            pv == probes_view(plan@),
            pv == resolution_plan(token@, strings_view(bases@)),
            forall|p: &Probe| probe.requires((p,)),
            forall|oracle: spec_fn(ProbeView) -> AnswerView|
                answers_as(probe, oracle) ==> #[trigger] outcome(pv, 0, false, oracle) == outcome(
                    pv,
                    i as nat,
                    skipping,
                    oracle,
                ),
        decreases plan@.len() - i,
    {
        let is_file = match &plan[i] {
            Probe::File(_) => true,
            _ => false,
        };
        let is_dir = match &plan[i] {
            Probe::Dir(_) => true,
            _ => false,
        };
        assert(pv[i as int] == plan@[i as int]@);
        if skipping && is_file {
            i += 1;
        } else {
            let a = probe(&plan[i]);
            let ghost answered = a;
            if is_dir {
                let absent = match a {
                    Answer::Absent => true,
                    _ => false,
                };
                assert forall|oracle: spec_fn(ProbeView) -> AnswerView|
                    answers_as(probe, oracle) implies #[trigger] outcome(pv, 0, false, oracle)
                    == outcome(pv, (i + 1) as nat, absent, oracle) by {
                    assert(probe.ensures((&plan[i as int],), a));
                    assert(a@ == oracle(pv[i as int]));
                }
                skipping = absent;
                i += 1;
            } else {
                match a {
                    Answer::Found { path, canonical } => {
                        let r = match canonical {
                            Some(c) => c,
                            None => path,
                        };
                        assert(probe.ensures((&plan[i as int],), answered));
                        assert(answer_path(answered@) == opt_view(Some(r)));
                        assert forall|oracle: spec_fn(ProbeView) -> AnswerView|
                            answers_as(probe, oracle) implies Some(r@) == resolved(
                            token@,
                            strings_view(bases@),
                            oracle,
                        ) by {
                            assert(probe.ensures((&plan[i as int],), a));
                            assert(outcome(pv, 0, false, oracle) == outcome(
                                pv,
                                i as nat,
                                skipping,
                                oracle,
                            ));
                        }
                        return Some(r);
                    },
                    Answer::Absent => {
                        assert forall|oracle: spec_fn(ProbeView) -> AnswerView|
                            answers_as(probe, oracle) implies #[trigger] outcome(
                            pv,
                            0,
                            false,
                            oracle,
                        ) == outcome(pv, (i + 1) as nat, false, oracle) by {
                            assert(probe.ensures((&plan[i as int],), a));
                            assert(a@ == oracle(pv[i as int]));
                        }
                        skipping = false;
                        i += 1;
                    },
                }
            }
        }
    }
    None
}

/// What the cache entries say, later entries over earlier ones.
pub open spec fn cache_map(s: Seq<(String, Option<String>)>) -> Map<Seq<char>, Option<Seq<char>>>
    decreases s.len(),
{
    if s.len() == 0 {
        Map::empty()
    } else {
        cache_map(s.drop_last()).insert(s.last().0@, opt_view(s.last().1))
    }
}

/// What a resolver with cache `cache` returns for `token`: the cached result
/// where there is one, else what resolution yields.
pub open spec fn served(
    cache: Map<Seq<char>, Option<Seq<char>>>,
    token: Seq<char>,
    bases: Seq<Seq<char>>,
    oracle: spec_fn(ProbeView) -> AnswerView,
) -> Option<Seq<char>> {
    if cache.contains_key(token) {
        cache[token]
    } else {
        resolved(token, bases, oracle)
    }
}

/// The cache after a resolver with cache `cache` was asked for `token`.
pub open spec fn cache_after(
    cache: Map<Seq<char>, Option<Seq<char>>>,
    token: Seq<char>,
    bases: Seq<Seq<char>>,
    oracle: spec_fn(ProbeView) -> AnswerView,
) -> Map<Seq<char>, Option<Seq<char>>> {
    if cache.contains_key(token) {
        cache
    } else {
        cache.insert(token, resolved(token, bases, oracle))
    }
}

/// Anything that turns an icon token into a path.
pub trait IconResolver {
    /// Whether `r` is an answer this resolver may give for `token`; any
    /// answer, unless an implementation says more.
    closed spec fn resolves(&self, token: Seq<char>, r: Option<Seq<char>>) -> bool {
        true
    }

    fn resolve_icon(&self, icon_name: &str) -> (r: Option<String>)
        ensures
            self.resolves(icon_name@, opt_view(r)),
    ;
}

/// An icon resolver with a cache that holds every result, a miss included,
/// for the resolver's lifetime.
pub struct CachedIconResolver {
    cache: Vec<(String, Option<String>)>,
}

impl View for CachedIconResolver {
    type V = Map<Seq<char>, Option<Seq<char>>>;

    closed spec fn view(&self) -> Map<Seq<char>, Option<Seq<char>>> {
        cache_map(self.cache@)
    }
}

impl CachedIconResolver {
    pub fn new() -> (r: Self)
        ensures
            r@ == Map::<Seq<char>, Option<Seq<char>>>::empty(),
    {
        CachedIconResolver { cache: Vec::new() }
    }

    /// The cached result for `token`, if it was resolved before.
    pub fn lookup(&self, token: &str) -> (r: Option<Option<String>>)
        ensures
            r is Some <==> self@.contains_key(token@),
            r is Some ==> opt_view(r->Some_0) == self@[token@],
    {
        let t = token.to_string();
        let mut found: Option<Option<String>> = None;
        let mut i: usize = 0;
        while i < self.cache.len()
            invariant
                i <= self.cache@.len(),
                t@ == token@,
                found is Some <==> cache_map(self.cache@.subrange(0, i as int)).contains_key(t@),
                found is Some ==> opt_view(found->Some_0) == cache_map(
                    self.cache@.subrange(0, i as int),
                )[t@],
            decreases self.cache@.len() - i,
        {
            assert(self.cache@.subrange(0, i + 1).drop_last() == self.cache@.subrange(0, i as int));
            if self.cache[i].0 == t {
                found = Some(clone_opt(&self.cache[i].1));
            }
            i += 1;
        }
        assert(self.cache@.subrange(0, self.cache@.len() as int) == self.cache@);
        found
    }

    /// Records `result` as the resolution of `token`; a later record of the
    /// same token wins.
    pub fn remember(&mut self, token: &str, result: Option<String>)
        ensures
            final(self)@ == old(self)@.insert(token@, opt_view(result)),
    {
        self.cache.push((token.to_string(), result));
        assert(self.cache@.drop_last() == old(self).cache@);
    }

    /// Resolves `token`: from the cache where it was resolved before, without
    /// asking `probe` anything; else by the plan, and the result is cached.
    pub fn resolve_icon<F: Fn(&Probe) -> Answer>(
        &mut self,
        token: &str,
        bases: &Vec<String>,
        probe: F,
    ) -> (r: Option<String>)
        requires
            old(self)@.contains_key(token@) || forall|p: &Probe| probe.requires((p,)),
        ensures
            old(self)@.contains_key(token@) ==> opt_view(r) == old(self)@[token@] && final(self)@
                == old(self)@,
            !old(self)@.contains_key(token@) ==> final(self)@ == old(self)@.insert(
                token@,
                opt_view(r),
            ) && offered_by(probe, r),
            forall|oracle: spec_fn(ProbeView) -> AnswerView|
                answers_as(probe, oracle) ==> opt_view(r) == served(
                    old(self)@,
                    token@,
                    strings_view(bases@),
                    oracle,
                ) && final(self)@ == cache_after(old(self)@, token@, strings_view(bases@), oracle),
    {
        match self.lookup(token) {
            Some(hit) => hit,
            None => {
                let r = resolve_uncached(token, bases, probe);
                self.remember(token, clone_opt(&r));
                r
            },
        }
    }
}

proof fn lemma_outcome_all_absent(plan: Seq<ProbeView>, i: nat, skipping: bool, oracle: spec_fn(ProbeView) -> AnswerView)
    requires
        forall|p: ProbeView| #[trigger] oracle(p) == AnswerView::Absent,
    ensures
        outcome(plan, i, skipping, oracle) is None,
    decreases plan.len() - i,
{
    if i < plan.len() {
        let _ = oracle(plan[i as int]);
        if skipping && plan[i as int] is File {
            lemma_outcome_all_absent(plan, i + 1, true, oracle);
        } else if plan[i as int] is Dir {
            lemma_outcome_all_absent(plan, i + 1, true, oracle);
        } else {
            lemma_outcome_all_absent(plan, i + 1, false, oracle);
        }
    }
}

/// An absolute path that exists resolves to its canonical form: the first
/// probe of its plan is the path itself.
pub proof fn lemma_existing_absolute_path(
    token: Seq<char>,
    bases: Seq<Seq<char>>,
    oracle: spec_fn(ProbeView) -> AnswerView,
    canonical: Seq<char>,
)
    requires
        is_absolute(token),
        oracle(ProbeView::File(token)) == AnswerView::Found(token, Some(canonical)),
    ensures
        resolved(token, bases, oracle) == Some(canonical),
{
    let plan = resolution_plan(token, bases);
    assert(plan[0] == ProbeView::File(token));
}

/// Resolution is memoised: once a token was served, asking again serves the
/// same result and leaves the cache as it was, whatever the environment
/// answers by then (a file deleted in between included).
pub proof fn lemma_second_resolution_from_cache(
    cache: Map<Seq<char>, Option<Seq<char>>>,
    token: Seq<char>,
    bases: Seq<Seq<char>>,
    first: spec_fn(ProbeView) -> AnswerView,
    later: spec_fn(ProbeView) -> AnswerView,
)
    ensures
        served(cache_after(cache, token, bases, first), token, bases, later) == served(
            cache,
            token,
            bases,
            first,
        ),
        cache_after(cache_after(cache, token, bases, first), token, bases, later) == cache_after(
            cache,
            token,
            bases,
            first,
        ),
{
}

/// A token that matches nothing resolves to no path, and that miss is
/// cached: a second request is served `None` from the cache.
pub proof fn lemma_miss_is_cached(
    cache: Map<Seq<char>, Option<Seq<char>>>,
    token: Seq<char>,
    bases: Seq<Seq<char>>,
    oracle: spec_fn(ProbeView) -> AnswerView,
    later: spec_fn(ProbeView) -> AnswerView,
)
    requires
        !cache.contains_key(token),
        forall|p: ProbeView| #[trigger] oracle(p) == AnswerView::Absent,
    ensures
        served(cache, token, bases, oracle) is None,
        cache_after(cache, token, bases, oracle).contains_key(token),
        served(cache_after(cache, token, bases, oracle), token, bases, later) is None,
{
    lemma_outcome_all_absent(resolution_plan(token, bases), 0, false, oracle);
}

/// In a `librarycache` directory a `steam_icon_<id>` token is looked up
/// first as `<id>_icon.jpg`: right after the directory itself and before
/// any `<token>.<ext>` file.
pub proof fn lemma_steam_file_first(b: Seq<char>, token: Seq<char>)
    requires
        is_library_cache(b),
        has_prefix(token, "steam_icon_"@),
    ensures
        base_probes(b, token).len() == 7,
        base_probes(b, token)[0] == ProbeView::Dir(b),
        base_probes(b, token)[1] == ProbeView::File(
            join_path(
                b,
                token.subrange("steam_icon_"@.len() as int, token.len() as int) + "_icon.jpg"@,
            ),
        ),
        base_probes(b, token)[2] == ProbeView::File(join_path(b, token + "."@ + "png"@)),
{
}

/// One resolution for a cache held elsewhere (behind a lock, say): given
/// what the cache held for `token`, the result and what to record. A cached
/// result is served without asking `probe` anything and nothing is recorded;
/// otherwise the token is resolved and the result is to be recorded.
pub fn resolve_after_lookup<F: Fn(&Probe) -> Answer>(
    cached: Option<Option<String>>,
    token: &str,
    bases: &Vec<String>,
    probe: F,
) -> (r: (Option<String>, Option<Option<String>>))
    requires
        cached is Some || forall|p: &Probe| probe.requires((p,)),
    ensures
        cached matches Some(hit) ==> opt_view(r.0) == opt_view(hit) && r.1 is None,
        cached is None ==> (r.1 matches Some(stored) && opt_view(stored) == opt_view(r.0)
            && offered_by(probe, r.0)),
        cached is None ==> forall|oracle: spec_fn(ProbeView) -> AnswerView|
            answers_as(probe, oracle) ==> opt_view(r.0) == resolved(
                token@,
                strings_view(bases@),
                oracle,
            ),
{
    match cached {
        Some(hit) => (hit, None),
        None => {
            let result = resolve_uncached(token, bases, probe);
            let stored = clone_opt(&result);
            (result, Some(stored))
        },
    }
}

proof fn lemma_search_probes_append(a: Seq<Seq<char>>, b: Seq<Seq<char>>, token: Seq<char>)
    ensures
        search_probes(a + b, token) == search_probes(a, token) + search_probes(b, token),
    decreases b.len(),
{
    if b.len() == 0 {
        assert(a + b =~= a);
        assert(search_probes(a, token) + search_probes(b, token) =~= search_probes(a, token));
    } else {
        lemma_search_probes_append(a, b.drop_last(), token);
        assert((a + b).drop_last() =~= a + b.drop_last());
        assert((a + b).last() == b.last());
        assert(search_probes(a + b, token) =~= search_probes(a, token) + search_probes(b, token));
    }
}

/// Over a stretch of the plan where every file and theme probe finds
/// nothing, resolution reaches the directory probe that ends the stretch.
proof fn lemma_nothing_found_until(
    plan: Seq<ProbeView>,
    i: nat,
    j: nat,
    skipping: bool,
    oracle: spec_fn(ProbeView) -> AnswerView,
)
    requires
        i <= j < plan.len(),
        plan[j as int] is Dir,
        forall|k: int| i <= k < j ==> plan[k] is Dir || oracle(plan[k]) == AnswerView::Absent,
    ensures
        outcome(plan, i, skipping, oracle) == outcome(plan, j, false, oracle),
    decreases j - i,
{
    if i < j {
        if skipping && plan[i as int] is File {
            lemma_nothing_found_until(plan, i + 1, j, true, oracle);
        } else if plan[i as int] is Dir {
            lemma_nothing_found_until(plan, i + 1, j, oracle(plan[i as int]) is Absent, oracle);
        } else {
            lemma_nothing_found_until(plan, i + 1, j, false, oracle);
        }
    }
}

/// A `steam_icon_<id>` token that the theme does not know, and for which
/// no file under an earlier base directory is found, resolves to
/// `<id>_icon.jpg` in an existing `librarycache` directory that holds it:
/// to its canonical path, or to the joined path where canonicalisation
/// failed.
pub proof fn lemma_steam_icon_found(
    token: Seq<char>,
    before: Seq<Seq<char>>,
    b: Seq<char>,
    after: Seq<Seq<char>>,
    oracle: spec_fn(ProbeView) -> AnswerView,
    path: Seq<char>,
    canonical: Option<Seq<char>>,
)
    requires
        has_prefix(token, "steam_icon_"@),
        is_library_cache(b),
        oracle(ProbeView::Theme(token)) == AnswerView::Absent,
        forall|p: ProbeView|
            #[trigger] search_probes(before, token).contains(p) ==> p is Dir || oracle(p)
                == AnswerView::Absent,
        oracle(ProbeView::Dir(b)) is Found,
        oracle(
            ProbeView::File(
                join_path(
                    b,
                    token.subrange("steam_icon_"@.len() as int, token.len() as int) + "_icon.jpg"@,
                ),
            ),
        ) == AnswerView::Found(path, canonical),
    ensures
        resolved(token, before.push(b) + after, oracle) == Some(
            match canonical {
                Some(c) => c,
                None => path,
            },
        ),
{
    reveal_strlit("steam_icon_");
    assert(token[0] == "steam_icon_"@[0]);
    assert(!is_absolute(token));
    lemma_steam_file_first(b, token);
    let sp = search_probes(before, token);
    let bp = base_probes(b, token);
    let n: int = sp.len() as int;
    lemma_search_probes_append(before.push(b), after, token);
    assert(before.push(b).drop_last() =~= before);
    assert(search_probes(before.push(b), token) == sp + bp);
    let body = sp + bp + search_probes(after, token);
    let tail = match stem_retry(token) {
        Some(s) => seq![ProbeView::Theme(s)],
        None => seq![],
    };
    let plan = resolution_plan(token, before.push(b) + after);
    assert(plan =~= seq![ProbeView::Theme(token)] + body + tail);
    assert(plan[0] == ProbeView::Theme(token));
    assert forall|k: int| 1 <= k < 1 + n implies plan[k] is Dir || oracle(plan[k])
        == AnswerView::Absent by {
        assert(plan[k] == sp[k - 1]);
        assert(sp.contains(sp[k - 1]));
    }
    assert(plan[1 + n] == bp[0]);
    assert(plan[2 + n] == bp[1]);
    lemma_nothing_found_until(plan, 1, (1 + n) as nat, false, oracle);
    assert(outcome(plan, (1 + n) as nat, false, oracle) == outcome(plan, (2 + n) as nat, false, oracle));
}

} // verus!
