//! Installed applications: the record the launcher lists, the port that
//! lists them, desktop-entry parsing, and the cleaning and splitting of an
//! `Exec=` command line.
use crate::text::{
    chars_of, clone_opt, ends_with, has_prefix, has_suffix, lines, lines_of, lower_of, lowercase, opt_view, starts_with,
    split_char, split_on, string_of, strings_view, trim, trimmed,
};
use crate::icons::{join, join_path, opt_str_view, IconResolver};
use crate::windows::Invocation;
use vstd::prelude::*;

verus! {

/// An application that can be launched.
#[derive(Debug, PartialEq, Eq, Hash)]
pub struct AppEntry {
    pub name: String,
    pub command: String,
    pub icon: Option<String>,
}

impl Clone for AppEntry {
    fn clone(&self) -> (r: AppEntry)
        ensures
            r.name@ == self.name@,
            r.command@ == self.command@,
            opt_view(r.icon) == opt_view(self.icon),
    {
        AppEntry { name: self.name.clone(), command: self.command.clone(), icon: clone_opt(&self.icon) }
    }
}

/// Anything that lists the installed applications.
pub trait AppRepository {
    /// Whether `r` is a listing this repository may give; any listing,
    /// unless an implementation says more.
    closed spec fn lists(&self, r: Result<Vec<AppEntry>, String>) -> bool {
        true
    }

    fn list_apps(&self) -> (r: Result<Vec<AppEntry>, String>)
        ensures
            self.lists(r),
    ;
}

/// The listing that `repo` gives.
pub fn list_apps_logic<R: AppRepository>(repo: &R) -> (r: Result<Vec<AppEntry>, String>)
    ensures
        repo.lists(r),
{
    repo.list_apps()
}

#[verifier::external_type_specification]
#[verifier::external_body]
pub struct ExShellParseError(shell_words::ParseError);

/// A name for what `shell_words::split` gives: the words of a command line
/// under POSIX shell quoting, or `None` where a quote is left open.
pub uninterp spec fn shell_split(s: Seq<char>) -> Option<Seq<Seq<char>>>;

/// Relies on `shell_words::split`: splits a command line into words as a
/// POSIX shell would, failing on an unclosed quote; an empty line has no
/// words.
#[verifier::external_body]
fn split_words(s: &str) -> (r: Result<Vec<String>, shell_words::ParseError>)
    ensures
        r is Ok <==> shell_split(s@) is Some,
        r is Ok ==> strings_view(r->Ok_0@) == shell_split(s@)->Some_0,
        s@.len() == 0 ==> r is Ok && r->Ok_0@.len() == 0,
{
    shell_words::split(s)
}

/// `s` with every non-overlapping occurrence of the two characters `a b`
/// removed, scanning from the left.
pub open spec fn remove_pair(s: Seq<char>, a: char, b: char) -> Seq<char>
    decreases s.len(),
{
    if s.len() < 2 {
        s
    } else if s[0] == a && s[1] == b {
        remove_pair(s.subrange(2, s.len() as int), a, b)
    } else {
        seq![s[0]] + remove_pair(s.drop_first(), a, b)
    }
}

/// An `Exec=` value without the field codes `%f %F %u %U %i %c %k`, each
/// removed in that order.
pub open spec fn strip_field_codes(s: Seq<char>) -> Seq<char> {
    remove_pair(
        remove_pair(
            remove_pair(
                remove_pair(
                    remove_pair(remove_pair(remove_pair(s, '%', 'f'), '%', 'F'), '%', 'u'),
                    '%',
                    'U',
                ),
                '%',
                'i',
            ),
            '%',
            'c',
        ),
        '%',
        'k',
    )
}

/// The program and its arguments, from the words of a command line.
pub open spec fn command_of(words: Seq<Seq<char>>) -> Option<(Seq<char>, Seq<Seq<char>>)> {
    if words.len() == 0 {
        None
    } else {
        Some((words[0], words.drop_first()))
    }
}

/// `s` with every occurrence of `a b` removed.
pub fn remove_code(s: &str, a: char, b: char) -> (r: String)
    ensures
        r@ == remove_pair(s@, a, b),
{
    let cs = chars_of(s);
    let n = cs.len();
    let mut out = String::new();
    let mut i: usize = 0;
    assert(cs@.subrange(0, n as int) =~= s@);
    assert(out@ + remove_pair(s@, a, b) =~= remove_pair(s@, a, b));
    while i < n
        invariant
            n == cs@.len(),
            cs@ == s@,
            i <= n,
            out@ + remove_pair(cs@.subrange(i as int, n as int), a, b) == remove_pair(s@, a, b),
        decreases n - i,
    {
        let ghost rest = cs@.subrange(i as int, n as int);
        if i + 1 < n && cs[i] == a && cs[i + 1] == b {
            assert(rest.subrange(2, rest.len() as int) == cs@.subrange(i + 2, n as int));
            i += 2;
        } else {
            assert(rest.drop_first() == cs@.subrange(i + 1, n as int));
            assert(remove_pair(rest, a, b) == seq![rest[0]] + remove_pair(rest.drop_first(), a, b))
                by {
                if rest.len() < 2 {
                    assert(rest.drop_first().len() == 0);
                    assert(rest =~= seq![rest[0]] + rest.drop_first());
                }
            }
            let ghost before = out@;
            crate::text::push_char(&mut out, cs[i]);
            assert(out@ + remove_pair(cs@.subrange(i + 1, n as int), a, b) =~= before + (seq![
                cs@[i as int],
            ] + remove_pair(cs@.subrange(i + 1, n as int), a, b)));
            i += 1;
        }
    }
    assert(cs@.subrange(n as int, n as int).len() == 0);
    assert(out@ + Seq::<char>::empty() =~= out@);
    out
}

/// An `Exec=` value without its field codes.
pub fn strip_codes(s: &str) -> (r: String)
    ensures
        r@ == strip_field_codes(s@),
{
    let s1 = remove_code(s, '%', 'f');
    let s2 = remove_code(s1.as_str(), '%', 'F');
    let s3 = remove_code(s2.as_str(), '%', 'u');
    let s4 = remove_code(s3.as_str(), '%', 'U');
    let s5 = remove_code(s4.as_str(), '%', 'i');
    let s6 = remove_code(s5.as_str(), '%', 'c');
    remove_code(s6.as_str(), '%', 'k')
}

/// The program and its arguments, from the words of a command line; `None`
/// where there are no words.
pub fn command_from_words(words: Vec<String>) -> (r: Option<(String, Vec<String>)>)
    ensures
        r is Some <==> command_of(strings_view(words@)) is Some,
        r is Some ==> r->Some_0.0@ == command_of(strings_view(words@))->Some_0.0 && strings_view(
            r->Some_0.1@,
        ) == command_of(strings_view(words@))->Some_0.1,
{
    if words.len() == 0 {
        return None;
    }
    let program = words[0].clone();
    let mut args: Vec<String> = Vec::new();
    let mut i: usize = 1;
    while i < words.len()
        invariant
            1 <= i <= words@.len(),
            strings_view(args@) == strings_view(words@).subrange(1, i as int),
        decreases words@.len() - i,
    {
        let w = words[i].clone();
        assert(w@ == words@[i as int]@);
        args.push(w);
        assert(strings_view(args@) == strings_view(args@.drop_last()).push(words@[i as int]@));
        assert(strings_view(words@).subrange(1, i + 1) =~= strings_view(words@).subrange(
            1,
            i as int,
        ).push(words@[i as int]@));
        i += 1;
    }
    assert(strings_view(words@).subrange(1, words@.len() as int) =~= strings_view(
        words@,
    ).drop_first());
    Some((program, args))
}

/// Splits a desktop entry's `Exec=` line into the program and its
/// arguments, after removing field codes. `None` where quoting is broken or
/// no word is left.
pub fn parse_exec_command(exec_cmd: &str) -> (r: Option<(String, Vec<String>)>)
    ensures
        shell_split(strip_field_codes(exec_cmd@)) is None ==> r is None,
        shell_split(strip_field_codes(exec_cmd@)) matches Some(ws) ==> {
            &&& r is Some <==> command_of(ws) is Some
            &&& r is Some ==> r->Some_0.0@ == command_of(ws)->Some_0.0 && strings_view(
                r->Some_0.1@,
            ) == command_of(ws)->Some_0.1
        },
{
    let cleaned = strip_codes(exec_cmd);
    match split_words(cleaned.as_str()) {
        Ok(words) => command_from_words(words),
        Err(_) => None,
    }
}

/// What a desktop file's `[Desktop Entry]` section gives, line by line.
pub struct DesktopScan {
    pub in_entry: bool,
    pub name: Option<Seq<char>>,
    pub command: Option<Seq<char>>,
    pub icon: Option<Seq<char>>,
    pub no_display: bool,
}

pub open spec fn scan_start() -> DesktopScan {
    DesktopScan { in_entry: false, name: None, command: None, icon: None, no_display: false }
}

/// The scan after one more line: a `[...]` header opens or closes the
/// section; inside it the first `Name=`, `Exec=` (field codes removed,
/// trimmed) and `Icon=` count, and `NoDisplay=true` in any case hides the
/// entry.
pub open spec fn scan_line(st: DesktopScan, raw: Seq<char>) -> DesktopScan {
    let line = trim(raw);
    if has_prefix(line, "["@) && has_suffix(line, "]"@) {
        DesktopScan { in_entry: line == "[Desktop Entry]"@, ..st }
    } else if !st.in_entry {
        st
    } else if has_prefix(line, "Name="@) {
        if st.name is None {
            DesktopScan { name: Some(line.subrange("Name="@.len() as int, line.len() as int)), ..st }
        } else {
            st
        }
    } else if has_prefix(line, "Exec="@) {
        if st.command is None {
            DesktopScan {
                command: Some(
                    trim(
                        strip_field_codes(line.subrange("Exec="@.len() as int, line.len() as int)),
                    ),
                ),
                ..st
            }
        } else {
            st
        }
    } else if has_prefix(line, "Icon="@) {
        if st.icon is None {
            DesktopScan { icon: Some(line.subrange("Icon="@.len() as int, line.len() as int)), ..st }
        } else {
            st
        }
    } else if has_prefix(line, "NoDisplay="@) {
        if lower_of(line.subrange("NoDisplay="@.len() as int, line.len() as int)) == "true"@ {
            DesktopScan { no_display: true, ..st }
        } else {
            st
        }
    } else {
        st
    }
}

pub open spec fn scan_lines(ls: Seq<Seq<char>>) -> DesktopScan
    decreases ls.len(),
{
    if ls.len() == 0 {
        scan_start()
    } else {
        scan_line(scan_lines(ls.drop_last()), ls.last())
    }
}

/// A desktop entry's launcher fields, its icon still a token.
pub struct DesktopEntry {
    pub name: String,
    pub command: String,
    pub icon: Option<String>,
}

/// The entry that a desktop file's text describes: `None` where it is
/// hidden or lacks a name or a command.
pub open spec fn desktop_entry_of(content: Seq<char>) -> Option<(Seq<char>, Seq<char>, Option<Seq<char>>)> {
    let st = scan_lines(lines(content));
    if !st.no_display && st.name is Some && st.command is Some {
        Some((st.name->Some_0, st.command->Some_0, st.icon))
    } else {
        None
    }
}

pub open spec fn scan_of(
    in_entry: bool,
    name: Option<String>,
    command: Option<String>,
    icon: Option<String>,
    no_display: bool,
) -> DesktopScan {
    DesktopScan {
        in_entry,
        name: opt_view(name),
        command: opt_view(command),
        icon: opt_view(icon),
        no_display,
    }
}

/// The entry that a desktop file's text describes, its icon still a token;
/// `None` where it is hidden or lacks a name or a command.
pub fn parse_desktop_entry(content: &str) -> (r: Option<DesktopEntry>)
    ensures
        r is Some <==> desktop_entry_of(content@) is Some,
        r matches Some(e) ==> (e.name@, e.command@, opt_view(e.icon)) == desktop_entry_of(
            content@,
        )->Some_0,
{
    let ls = lines_of(content);
    let ghost lv = strings_view(ls@);
    let mut in_entry = false;
    let mut name: Option<String> = None;
    let mut command: Option<String> = None;
    let mut icon: Option<String> = None;
    let mut no_display = false;
    let mut i: usize = 0;
    while i < ls.len()
        invariant
            i <= ls@.len(),
            lv == strings_view(ls@),
            lv == lines(content@),
            scan_of(in_entry, name, command, icon, no_display) == scan_lines(lv.subrange(0, i as int)),
        decreases ls@.len() - i,
    {
        assert(lv.subrange(0, i + 1).drop_last() == lv.subrange(0, i as int));
        let raw = chars_of(ls[i].as_str());
        let t = trimmed(&raw, 0, raw.len());
        assert(raw@.subrange(0, raw@.len() as int) == raw@);
        let tc = chars_of(t.as_str());
        if starts_with(t.as_str(), "[") && ends_with(t.as_str(), "]") {
            in_entry = t == "[Desktop Entry]".to_string();
        } else if !in_entry {
        } else if starts_with(t.as_str(), "Name=") {
            if name.is_none() {
                let k = "Name=".unicode_len();
                name = Some(string_of(&tc, k, tc.len()));
            }
        } else if starts_with(t.as_str(), "Exec=") {
            if command.is_none() {
                let k = "Exec=".unicode_len();
                let value = string_of(&tc, k, tc.len());
                let cleaned = strip_codes(value.as_str());
                let cc = chars_of(cleaned.as_str());
                let cmd = trimmed(&cc, 0, cc.len());
                assert(cc@.subrange(0, cc@.len() as int) == cc@);
                command = Some(cmd);
            }
        } else if starts_with(t.as_str(), "Icon=") {
            if icon.is_none() {
                let k = "Icon=".unicode_len();
                icon = Some(string_of(&tc, k, tc.len()));
            }
        } else if starts_with(t.as_str(), "NoDisplay=") {
            let k = "NoDisplay=".unicode_len();
            let value = string_of(&tc, k, tc.len());
            if lowercase(value.as_str()) == "true".to_string() {
                no_display = true;
            }
        }
        i += 1;
    }
    assert(lv.subrange(0, ls@.len() as int) == lv);
    if !no_display {
        match (name, command) {
            (Some(n), Some(e)) => Some(DesktopEntry { name: n, command: e, icon }),
            _ => None,
        }
    } else {
        None
    }
}

/// The launcher record for a parsed entry, given what its icon token
/// resolved to; an empty path counts as no icon.
pub fn app_entry_from(entry: DesktopEntry, resolved_icon: Option<String>) -> (r: AppEntry)
    ensures
        r.name@ == entry.name@,
        r.command@ == entry.command@,
        opt_view(r.icon) == match resolved_icon {
            Some(p) => if p@.len() == 0 {
                None
            } else {
                Some(p@)
            },
            None => None,
        },
{
    let icon = match resolved_icon {
        Some(p) => if p.as_str().unicode_len() == 0 {
            None
        } else {
            Some(p)
        },
        None => None,
    };
    AppEntry { name: entry.name, command: entry.command, icon }
}

pub open spec fn app_names(s: Seq<AppEntry>) -> Seq<Seq<char>> {
    s.map_values(|a: AppEntry| a.name@)
}

/// Adds `app` unless an application of the same name is listed already;
/// says whether it was added.
pub fn push_new_app(apps: &mut Vec<AppEntry>, app: AppEntry) -> (r: bool)
    ensures
        r == !app_names(old(apps)@).contains(app.name@),
        r ==> final(apps)@ == old(apps)@.push(app),
        !r ==> final(apps)@ == old(apps)@,
{
    let mut i: usize = 0;
    while i < apps.len()
        invariant
            i <= apps@.len(),
            apps@ == old(apps)@,
            forall|j: int| 0 <= j < i ==> apps@[j].name@ != app.name@,
        decreases apps@.len() - i,
    {
        if apps[i].name == app.name {
            assert(app_names(apps@)[i as int] == app.name@);
            return false;
        }
        i += 1;
    }
    assert(!app_names(apps@).contains(app.name@)) by {
        if app_names(apps@).contains(app.name@) {
            let j = choose|j: int| 0 <= j < app_names(apps@).len() && app_names(apps@)[j] == app.name@;
            assert(apps@[j].name@ == app.name@);
        }
    }
    apps.push(app);
    true
}

/// The directories searched for desktop files: the caller's own list where
/// one was given, else `applications` under each XDG data directory (or the
/// defaults) and under the local data directory.
pub open spec fn desktop_dirs_of(
    custom: Option<Seq<Seq<char>>>,
    xdg: Option<Seq<char>>,
    local: Option<Seq<char>>,
) -> Seq<Seq<char>> {
    match custom {
        Some(ps) => ps,
        None => (match xdg {
            Some(x) => split_on(x, ':').map_values(|d: Seq<char>| join_path(d, "applications"@)),
            None => seq!["/usr/share/applications"@, "/usr/local/share/applications"@],
        }) + (match local {
            Some(l) => seq![join_path(l, "applications"@)],
            None => seq![],
        }),
    }
}

/// The Flatpak export directories, searched only without a list of the
/// caller's own; an unknown local data directory stands as the empty path.
pub open spec fn flatpak_dirs_of(custom: Option<Seq<Seq<char>>>, local: Option<Seq<char>>) -> Seq<
    Seq<char>,
> {
    match custom {
        Some(_) => seq![],
        None => seq![
            "/var/lib/flatpak/exports/share/applications"@,
            match local {
                Some(l) => join_path(l, "flatpak/exports/share/applications"@),
                None => seq![],
            },
        ],
    }
}

/// The application store over desktop files, Flatpak exports and AppImages.
pub struct FsAppRepository<R> {
    icon_resolver: R,
    custom_paths: Option<Vec<String>>,
}

/// An icon path as an entry shows it: an empty path counts as none.
pub open spec fn shown_icon(p: Option<Seq<char>>) -> Option<Seq<char>> {
    match p {
        Some(q) => if q.len() == 0 {
            None
        } else {
            Some(q)
        },
        None => None,
    }
}

impl<R: IconResolver> FsAppRepository<R> {
    /// The icon resolver the store asks.
    pub closed spec fn icons(&self) -> R {
        self.icon_resolver
    }

    pub closed spec fn custom(&self) -> Option<Seq<Seq<char>>> {
        match self.custom_paths {
            Some(ps) => Some(strings_view(ps@)),
            None => None,
        }
    }

    pub fn new(icon_resolver: R) -> (r: Self)
        ensures
            r.custom() is None,
    {
        FsAppRepository { icon_resolver, custom_paths: None }
    }

    /// A store that searches only `paths`.
    pub fn new_with_paths(icon_resolver: R, paths: Vec<String>) -> (r: Self)
        ensures
            r.custom() == Some(strings_view(paths@)),
    {
        FsAppRepository { icon_resolver, custom_paths: Some(paths) }
    }

    /// The directories to search for desktop files.
    pub fn desktop_dirs(&self, xdg_data_dirs: Option<&str>, data_local_dir: Option<&str>) -> (r:
        Vec<String>)
        ensures
            strings_view(r@) == desktop_dirs_of(
                self.custom(),
                opt_str_view(xdg_data_dirs),
                opt_str_view(data_local_dir),
            ),
    {
        if let Some(ps) = &self.custom_paths {
            let mut out: Vec<String> = Vec::new();
            let mut i: usize = 0;
            while i < ps.len()
                invariant
                    i <= ps@.len(),
                    strings_view(out@) == strings_view(ps@).subrange(0, i as int),
                decreases ps@.len() - i,
            {
                let p = ps[i].clone();
                out.push(p);
                assert(strings_view(out@) == strings_view(out@.drop_last()).push(ps@[i as int]@));
                assert(strings_view(ps@).subrange(0, i + 1) =~= strings_view(ps@).subrange(
                    0,
                    i as int,
                ).push(ps@[i as int]@));
                i += 1;
            }
            assert(strings_view(ps@).subrange(0, ps@.len() as int) =~= strings_view(ps@));
            return out;
        }
        let mut out: Vec<String> = Vec::new();
        match xdg_data_dirs {
            Some(x) => {
                let ds = split_char(x, ':');
                let ghost dv = strings_view(ds@);
                let mut i: usize = 0;
                while i < ds.len()
                    invariant
                        i <= ds@.len(),
                        dv == strings_view(ds@),
                        strings_view(out@) == dv.subrange(0, i as int).map_values(
                            |d: Seq<char>| join_path(d, "applications"@),
                        ),
                    decreases ds@.len() - i,
                {
                    let p = join(ds[i].as_str(), "applications");
                    out.push(p);
                    assert(strings_view(out@) == strings_view(out@.drop_last()).push(p@));
                    assert(dv.subrange(0, i + 1).map_values(
                        |d: Seq<char>| join_path(d, "applications"@),
                    ) =~= dv.subrange(0, i as int).map_values(
                        |d: Seq<char>| join_path(d, "applications"@),
                    ).push(join_path(dv[i as int], "applications"@)));
                    i += 1;
                }
                assert(dv.subrange(0, ds@.len() as int) =~= dv);
            },
            None => {
                out.push("/usr/share/applications".to_string());
                out.push("/usr/local/share/applications".to_string());
                assert(strings_view(out@) =~= seq![
                    "/usr/share/applications"@,
                    "/usr/local/share/applications"@,
                ]);
            },
        }
        let ghost system = strings_view(out@);
        match data_local_dir {
            Some(l) => {
                let p = join(l, "applications");
                out.push(p);
                assert(strings_view(out@) =~= system + seq![p@]);
            },
            None => {
                assert(strings_view(out@) =~= system + Seq::<Seq<char>>::empty());
            },
        }
        out
    }

    /// The Flatpak export directories to search.
    pub fn flatpak_dirs(&self, data_local_dir: Option<&str>) -> (r: Vec<String>)
        ensures
            strings_view(r@) == flatpak_dirs_of(self.custom(), opt_str_view(data_local_dir)),
    {
        let mut out: Vec<String> = Vec::new();
        if self.custom_paths.is_none() {
            out.push("/var/lib/flatpak/exports/share/applications".to_string());
            let local = match data_local_dir {
                Some(l) => join(l, "flatpak/exports/share/applications"),
                None => String::new(),
            };
            out.push(local);
        }
        assert(strings_view(out@) =~= flatpak_dirs_of(self.custom(), opt_str_view(data_local_dir)));
        out
    }

    /// Whether AppImages in `~/Applications` are listed: only without a
    /// list of the caller's own.
    pub fn scans_app_images(&self) -> (r: bool)
        ensures
            r == (self.custom() is None),
    {
        self.custom_paths.is_none()
    }

    /// The application that a desktop file's text describes, its icon token
    /// resolved; `None` where the entry is hidden or incomplete.
    pub fn entry_from_desktop_file(&self, content: &str) -> (r: Option<AppEntry>)
        ensures
            r is Some <==> desktop_entry_of(content@) is Some,
            r matches Some(a) ==> a.name@ == desktop_entry_of(content@)->Some_0.0 && a.command@
                == desktop_entry_of(content@)->Some_0.1,
            r matches Some(a) ==> (a.icon matches Some(p) ==> p@.len() > 0),
            r matches Some(a) ==> (desktop_entry_of(content@)->Some_0.2 is None ==> a.icon is None),
            r matches Some(a) ==> (desktop_entry_of(content@)->Some_0.2 matches Some(token) ==> exists|
                v: Option<Seq<char>>,
            | #[trigger] self.icons().resolves(token, v) && opt_view(a.icon) == shown_icon(v)),
    {
        match parse_desktop_entry(content) {
            Some(entry) => {
                let resolved = match &entry.icon {
                    Some(token) => {
                        let v = self.icon_resolver.resolve_icon(token.as_str());
                        assert(self.icons().resolves(token@, opt_view(v)));
                        v
                    },
                    None => None,
                };
                let ghost rv = opt_view(resolved);
                let ghost token_v = opt_view(entry.icon);
                let a = app_entry_from(entry, resolved);
                assert(opt_view(a.icon) == shown_icon(rv));
                assert(token_v matches Some(t) ==> self.icons().resolves(t, rv));
                Some(a)
            },
            None => None,
        }
    }

    /// The application for an AppImage: named after the file's stem, run by
    /// its path, with the icon of that name or else the generic executable
    /// icon; `None` for an empty stem.
    pub fn app_image_entry(&self, stem: &str, path: &str) -> (r: Option<AppEntry>)
        ensures
            stem@.len() == 0 <==> r is None,
            r matches Some(a) ==> a.name@ == stem@ && a.command@ == path@,
            r matches Some(a) ==> exists|own: Option<Seq<char>>|
                #[trigger] self.icons().resolves(stem@, own) && (own is Some ==> opt_view(a.icon)
                    == own) && (own is None ==> self.icons().resolves(
                    "application-x-executable"@,
                    opt_view(a.icon),
                )),
    {
        if stem.unicode_len() == 0 {
            return None;
        }
        let own = self.icon_resolver.resolve_icon(stem);
        let ghost own_v = opt_view(own);
        let icon = match own {
            Some(p) => Some(p),
            None => self.icon_resolver.resolve_icon("application-x-executable"),
        };
        assert(self.icons().resolves(stem@, own_v));
        Some(AppEntry { name: stem.to_string(), command: path.to_string(), icon })
    }
}

/// The program and arguments that run a script: a `.sh` file through `sh`,
/// anything else directly, followed by its own arguments split as a shell
/// would; `None` where those arguments leave a quote open.
pub open spec fn script_command(path: Seq<char>, args: Option<Seq<char>>) -> Option<
    (Seq<char>, Seq<Seq<char>>),
> {
    let p = trim(path);
    let (program, head) = if has_suffix(p, ".sh"@) {
        ("sh"@, seq![p])
    } else {
        (p, seq![])
    };
    match args {
        None => Some((program, head)),
        Some(a) => match shell_split(a) {
            Some(words) => Some((program, head + words)),
            None => None,
        },
    }
}

/// How to run the script at `path` with the argument line `args`.
pub fn script_invocation(path: &str, args: Option<&str>) -> (r: Option<Invocation>)
    ensures
        r is Some <==> script_command(path@, opt_str_view(args)) is Some,
        r matches Some(inv) ==> inv@ == script_command(path@, opt_str_view(args))->Some_0,
{
    let cs = chars_of(path);
    let p = trimmed(&cs, 0, cs.len());
    assert(cs@.subrange(0, cs@.len() as int) == cs@);
    let mut argv: Vec<String> = Vec::new();
    let program = if ends_with(p.as_str(), ".sh") {
        argv.push(p.clone());
        "sh".to_string()
    } else {
        p.clone()
    };
    let ghost head = strings_view(argv@);
    match args {
        None => {},
        Some(a) => match split_words(a) {
            Ok(words) => {
                let mut i: usize = 0;
                while i < words.len()
                    invariant
                        i <= words@.len(),
                        strings_view(argv@) == head + strings_view(words@).subrange(0, i as int),
                    decreases words@.len() - i,
                {
                    let w = words[i].clone();
                    argv.push(w);
                    assert(strings_view(argv@) == strings_view(argv@.drop_last()).push(
                        words@[i as int]@,
                    ));
                    assert(strings_view(words@).subrange(0, i + 1) =~= strings_view(
                        words@,
                    ).subrange(0, i as int).push(words@[i as int]@));
                    assert(head + strings_view(words@).subrange(0, i + 1) =~= (head
                        + strings_view(words@).subrange(0, i as int)).push(words@[i as int]@));
                    i += 1;
                }
                assert(strings_view(words@).subrange(0, words@.len() as int) == strings_view(
                    words@,
                ));
            },
            Err(_) => {
                return None;
            },
        },
    }
    Some(Invocation { program, args: argv })
}

} // verus!
