//! Window listing and focusing across three window-manager protocols
//! (Hyprland's `hyprctl`, `wlrctl`, and X11's `wmctrl`), behind one
//! normalised record. Processes run through an executor that the caller
//! injects; everything else here is decided and proved.
use crate::icons::{
    answers_as, offers, resolved, served, Answer, AnswerView, CachedIconResolver, IconResolver,
    Probe, ProbeView,
};
use crate::json::{json_array_of, member_str, parse_json_array, str_member};
use crate::text::{
    after_last, after_last_char, chars_of, decode_lossy, find_char, index_of, join_spaced,
    join_spaced_from, lines, lines_of, lossy_text, lower_of, lowercase, opt_view, strings_view, trim, trimmed, words, words_of,
};
use vstd::prelude::*;

verus! {

/// One top-level window, normalised across backends.
#[derive(Debug)]
pub struct WindowEntry {
    pub title: String,
    /// Stable application identifier.
    pub class: String,
    /// Backend-scoped window handle, valid while the window lives.
    pub address: String,
    pub icon: Option<String>,
}

pub struct WindowEntryView {
    pub title: Seq<char>,
    pub class: Seq<char>,
    pub address: Seq<char>,
    pub icon: Option<Seq<char>>,
}

impl View for WindowEntry {
    type V = WindowEntryView;

    open spec fn view(&self) -> WindowEntryView {
        WindowEntryView {
            title: self.title@,
            class: self.class@,
            address: self.address@,
            icon: opt_view(self.icon),
        }
    }
}

impl Clone for WindowEntry {
    fn clone(&self) -> (r: WindowEntry)
        ensures
            r@ == self@,
    {
        WindowEntry {
            title: self.title.clone(),
            class: self.class.clone(),
            address: self.address.clone(),
            icon: match &self.icon {
                Some(s) => Some(s.clone()),
                None => None,
            },
        }
    }
}

pub open spec fn entries_view(v: Seq<WindowEntry>) -> Seq<WindowEntryView> {
    v.map_values(|e: WindowEntry| e@)
}

/// The window-manager protocols.
#[derive(Clone, Copy, Debug, PartialEq, Eq, Structural)]
pub enum Backend {
    Hyprland,
    Wlrctl,
    Wmctrl,
}

/// What backend selection reads of the environment: whether each variable
/// is set.
#[derive(Clone, Copy, Debug, PartialEq, Eq, Structural)]
pub struct SessionEnv {
    pub hyprland_instance_signature: bool,
    pub wayland_display: bool,
}

pub open spec fn backend_for(env: SessionEnv) -> Backend {
    if env.hyprland_instance_signature {
        Backend::Hyprland
    } else if env.wayland_display {
        Backend::Wlrctl
    } else {
        Backend::Wmctrl
    }
}

/// A program to run and its arguments.
pub struct Invocation {
    pub program: String,
    pub args: Vec<String>,
}

impl View for Invocation {
    type V = (Seq<char>, Seq<Seq<char>>);

    open spec fn view(&self) -> (Seq<char>, Seq<Seq<char>>) {
        (self.program@, strings_view(self.args@))
    }
}

/// What a finished process handed back.
pub struct CommandOutput {
    pub success: bool,
    pub code: Option<i32>,
    pub stdout: Vec<u8>,
    pub stderr: Vec<u8>,
}

/// Why a backend call failed.
pub enum WindowError {
    /// The program could not be started; the text says why.
    Execution(Backend, String),
    /// The listing program ran and exited unsuccessfully.
    CommandFailed(Backend),
    /// The listing program's output did not have the expected shape.
    ParseFailed(Backend, String),
    /// The focusing program ran and exited unsuccessfully.
    FocusFailed(Backend),
}

pub open spec fn program_of(b: Backend) -> Seq<char> {
    match b {
        Backend::Hyprland => "hyprctl"@,
        Backend::Wlrctl => "wlrctl"@,
        Backend::Wmctrl => "wmctrl"@,
    }
}

pub open spec fn list_invocation_of(b: Backend) -> (Seq<char>, Seq<Seq<char>>) {
    match b {
        Backend::Hyprland => ("hyprctl"@, seq!["clients"@, "-j"@]),
        Backend::Wlrctl => ("wlrctl"@, seq!["toplevel"@, "list"@]),
        Backend::Wmctrl => ("wmctrl"@, seq!["-l"@, "-x"@]),
    }
}

pub open spec fn focus_invocation_of(b: Backend, id: Seq<char>) -> (Seq<char>, Seq<Seq<char>>) {
    match b {
        Backend::Hyprland => ("hyprctl"@, seq!["dispatch"@, "focuswindow"@, "address:"@ + id]),
        Backend::Wlrctl => ("wlrctl"@, seq!["toplevel"@, "focus"@, id]),
        Backend::Wmctrl => ("wmctrl"@, seq!["-i"@, "-a"@, id]),
    }
}

/// The record for one element of `hyprctl clients -j`: each field the
/// string member of that name, the empty string where there is none.
pub open spec fn member_or_empty(v: serde_json::Value, key: Seq<char>) -> Seq<char> {
    match str_member(v, key) {
        Some(s) => s,
        None => seq![],
    }
}

pub open spec fn client_entry(v: serde_json::Value) -> WindowEntryView {
    WindowEntryView {
        title: member_or_empty(v, "title"@),
        class: member_or_empty(v, "class"@),
        address: member_or_empty(v, "address"@),
        icon: None,
    }
}

/// A line of `wlrctl toplevel list`: split at the first `:`; the trimmed
/// left part is the class and the address, the trimmed right part the title.
pub open spec fn wlrctl_entry(line: Seq<char>) -> Option<WindowEntryView> {
    let i = index_of(line, ':', 0);
    if i < line.len() {
        let app_id = trim(line.subrange(0, i));
        Some(
            WindowEntryView {
                title: trim(line.subrange(i + 1, line.len() as int)),
                class: app_id,
                address: app_id,
                icon: None,
            },
        )
    } else {
        None
    }
}

/// A line of `wmctrl -l -x`: with five words or more, the first is the
/// address, the third's last `.`-separated segment the class, and the words
/// from the fifth on, joined by single spaces, the title.
pub open spec fn wmctrl_entry(line: Seq<char>) -> Option<WindowEntryView> {
    let ws = words(line);
    if ws.len() >= 5 {
        Some(
            WindowEntryView {
                title: join_spaced(ws.subrange(4, ws.len() as int)),
                class: after_last(ws[2], '.'),
                address: ws[0],
                icon: None,
            },
        )
    } else {
        None
    }
}

pub open spec fn wlrctl_entries(ls: Seq<Seq<char>>) -> Seq<WindowEntryView>
    decreases ls.len(),
{
    if ls.len() == 0 {
        seq![]
    } else {
        let rest = wlrctl_entries(ls.drop_last());
        match wlrctl_entry(ls.last()) {
            Some(e) => rest.push(e),
            None => rest,
        }
    }
}

pub open spec fn wmctrl_entries(ls: Seq<Seq<char>>) -> Seq<WindowEntryView>
    decreases ls.len(),
{
    if ls.len() == 0 {
        seq![]
    } else {
        let rest = wmctrl_entries(ls.drop_last());
        match wmctrl_entry(ls.last()) {
            Some(e) => rest.push(e),
            None => rest,
        }
    }
}

/// Whether `r` is what listing with backend `b` gives for the executor's
/// result `res`.
pub open spec fn listed(
    b: Backend,
    res: Result<CommandOutput, String>,
    r: Result<Vec<WindowEntry>, WindowError>,
) -> bool {
    match res {
        Err(e) => r matches Err(WindowError::Execution(b2, d)) && b2 == b && d@ == e@,
        Ok(out) => match b {
            Backend::Hyprland => if !out.success {
                r == Err::<Vec<WindowEntry>, WindowError>(WindowError::CommandFailed(b))
            } else {
                match json_array_of(out.stdout@) {
                    None => r matches Err(WindowError::ParseFailed(b2, _)) && b2 == b,
                    Some(vs) => r is Ok && entries_view(r->Ok_0@) == vs.map_values(
                        |v: serde_json::Value| client_entry(v),
                    ),
                }
            },
            Backend::Wlrctl => if !out.success {
                r == Err::<Vec<WindowEntry>, WindowError>(WindowError::CommandFailed(b))
            } else {
                r is Ok && entries_view(r->Ok_0@) == wlrctl_entries(
                    lines(lossy_text(out.stdout@)),
                )
            },
            Backend::Wmctrl => r is Ok && entries_view(r->Ok_0@) == wmctrl_entries(
                lines(lossy_text(out.stdout@)),
            ),
        },
    }
}

/// Whether `r` is what focusing with backend `b` gives for the executor's
/// result `res`.
pub open spec fn focused(b: Backend, res: Result<CommandOutput, String>, r: Result<(), WindowError>) -> bool {
    match res {
        Err(e) => r matches Err(WindowError::Execution(b2, d)) && b2 == b && d@ == e@,
        Ok(out) => if out.success {
            r is Ok
        } else {
            r == Err::<(), WindowError>(WindowError::FocusFailed(b))
        },
    }
}

fn strings2(a: &str, b: &str) -> (r: Vec<String>)
    ensures
        strings_view(r@) == seq![a@, b@],
{
    let mut v: Vec<String> = Vec::new();
    v.push(a.to_string());
    v.push(b.to_string());
    assert(strings_view(v@) =~= seq![a@, b@]);
    v
}

fn strings3(a: &str, b: &str, c: String) -> (r: Vec<String>)
    ensures
        strings_view(r@) == seq![a@, b@, c@],
{
    let mut v: Vec<String> = Vec::new();
    v.push(a.to_string());
    v.push(b.to_string());
    v.push(c);
    assert(strings_view(v@) =~= seq![a@, b@, c@]);
    v
}

impl Backend {
    /// Picks the backend: Hyprland when its instance signature is set, else
    /// wlrctl when a Wayland display is set, else wmctrl.
    pub fn select(env: SessionEnv) -> (r: Backend)
        ensures
            r == backend_for(env),
            env.hyprland_instance_signature ==> r == Backend::Hyprland,
            !env.hyprland_instance_signature && env.wayland_display ==> r == Backend::Wlrctl,
            !env.hyprland_instance_signature && !env.wayland_display ==> r == Backend::Wmctrl,
    {
        if env.hyprland_instance_signature {
            Backend::Hyprland
        } else if env.wayland_display {
            Backend::Wlrctl
        } else {
            Backend::Wmctrl
        }
    }

    /// The program that this backend drives.
    pub fn program(&self) -> (r: &'static str)
        ensures
            r@ == program_of(*self),
    {
        match self {
            Backend::Hyprland => "hyprctl",
            Backend::Wlrctl => "wlrctl",
            Backend::Wmctrl => "wmctrl",
        }
    }

    /// The command that lists windows.
    pub fn list_invocation(&self) -> (r: Invocation)
        ensures
            r@ == list_invocation_of(*self),
    {
        let program = self.program().to_string();
        let args = match self {
            Backend::Hyprland => strings2("clients", "-j"),
            Backend::Wlrctl => strings2("toplevel", "list"),
            Backend::Wmctrl => strings2("-l", "-x"),
        };
        Invocation { program, args }
    }

    /// The command that focuses the window `id`.
    pub fn focus_invocation(&self, id: &str) -> (r: Invocation)
        ensures
            r@ == focus_invocation_of(*self, id@),
    {
        let program = self.program().to_string();
        let args = match self {
            Backend::Hyprland => {
                let mut target = "address:".to_string();
                target.append(id);
                strings3("dispatch", "focuswindow", target)
            },
            Backend::Wlrctl => strings3("toplevel", "focus", id.to_string()),
            Backend::Wmctrl => strings3("-i", "-a", id.to_string()),
        };
        Invocation { program, args }
    }

    /// Turns the executor's result for the listing command into entries or
    /// an error.
    pub fn interpret_list(&self, res: Result<CommandOutput, String>) -> (r: Result<
        Vec<WindowEntry>,
        WindowError,
    >)
        ensures
            listed(*self, res, r),
    {
        match res {
            Err(e) => Err(WindowError::Execution(*self, e)),
            Ok(out) => match self {
                Backend::Hyprland => {
                    if !out.success {
                        Err(WindowError::CommandFailed(*self))
                    } else {
                        match parse_hyprland_clients(out.stdout.as_slice()) {
                            Ok(entries) => Ok(entries),
                            Err(detail) => Err(WindowError::ParseFailed(*self, detail)),
                        }
                    }
                },
                Backend::Wlrctl => {
                    if !out.success {
                        Err(WindowError::CommandFailed(*self))
                    } else {
                        let text = decode_lossy(out.stdout.as_slice());
                        Ok(parse_wlrctl_list(text.as_str()))
                    }
                },
                Backend::Wmctrl => {
                    let text = decode_lossy(out.stdout.as_slice());
                    Ok(parse_wmctrl_list(text.as_str()))
                },
            },
        }
    }

    /// Turns the executor's result for the focusing command into success or
    /// an error.
    pub fn interpret_focus(&self, res: Result<CommandOutput, String>) -> (r: Result<
        (),
        WindowError,
    >)
        ensures
            focused(*self, res, r),
    {
        match res {
            Err(e) => Err(WindowError::Execution(*self, e)),
            Ok(out) => if out.success {
                Ok(())
            } else {
                Err(WindowError::FocusFailed(*self))
            },
        }
    }
}

/// The entries for the decoded elements of `hyprctl clients -j`.
pub fn entries_from_clients(clients: &Vec<serde_json::Value>) -> (r: Vec<WindowEntry>)
    ensures
        entries_view(r@) == clients@.map_values(|v: serde_json::Value| client_entry(v)),
{
    let mut out: Vec<WindowEntry> = Vec::new();
    let mut i: usize = 0;
    while i < clients.len()
        invariant
            i <= clients@.len(),
            entries_view(out@) == clients@.subrange(0, i as int).map_values(
                |v: serde_json::Value| client_entry(v),
            ),
        decreases clients@.len() - i,
    {
        let v = &clients[i];
        let class = match member_str(v, "class") {
            Some(s) => s,
            None => String::new(),
        };
        let title = match member_str(v, "title") {
            Some(s) => s,
            None => String::new(),
        };
        let address = match member_str(v, "address") {
            Some(s) => s,
            None => String::new(),
        };
        let e = WindowEntry { title, class, address, icon: None };
        out.push(e);
        assert(e@ == client_entry(clients@[i as int]));
        assert(clients@.subrange(0, i + 1) == clients@.subrange(0, i as int).push(clients@[i as int]));
        assert(clients@.subrange(0, i + 1).map_values(|v: serde_json::Value| client_entry(v))
            =~= clients@.subrange(0, i as int).map_values(|v: serde_json::Value| client_entry(v)).push(
            client_entry(clients@[i as int]),
        ));
        assert(entries_view(out@) =~= entries_view(out@.drop_last()).push(e@));
        i += 1;
    }
    assert(clients@.subrange(0, clients@.len() as int) == clients@);
    out
}

/// Parses the output of `hyprctl clients -j`: a JSON array of objects, one
/// entry per element in order; anything else is an error whose text says why.
pub fn parse_hyprland_clients(stdout: &[u8]) -> (r: Result<Vec<WindowEntry>, String>)
    ensures
        r is Ok <==> json_array_of(stdout@) is Some,
        r is Ok ==> entries_view(r->Ok_0@) == json_array_of(stdout@)->Some_0.map_values(
            |v: serde_json::Value| client_entry(v),
        ),
{
    match parse_json_array(stdout) {
        Ok(clients) => Ok(entries_from_clients(&clients)),
        Err(e) => Err(e),
    }
}

/// The entry for one line of `wlrctl toplevel list`, if the line has a `:`.
pub fn parse_wlrctl_line(line: &str) -> (r: Option<WindowEntry>)
    ensures
        r is Some <==> wlrctl_entry(line@) is Some,
        r is Some ==> r->Some_0@ == wlrctl_entry(line@)->Some_0,
{
    let cs = chars_of(line);
    let i = find_char(&cs, ':');
    if i < cs.len() {
        let app_id = trimmed(&cs, 0, i);
        let title = trimmed(&cs, i + 1, cs.len());
        let address = app_id.clone();
        Some(WindowEntry { title, class: app_id, address, icon: None })
    } else {
        None
    }
}

/// The entry for one line of `wmctrl -l -x`, if the line has five words.
pub fn parse_wmctrl_line(line: &str) -> (r: Option<WindowEntry>)
    ensures
        r is Some <==> wmctrl_entry(line@) is Some,
        r is Some ==> r->Some_0@ == wmctrl_entry(line@)->Some_0,
{
    let cs = chars_of(line);
    let ws = words_of(&cs);
    if ws.len() >= 5 {
        let address = ws[0].clone();
        let class = after_last_char(ws[2].as_str(), '.');
        let title = join_spaced_from(&ws, 4);
        Some(WindowEntry { title, class, address, icon: None })
    } else {
        None
    }
}

/// The entries of the text that `wlrctl toplevel list` printed, in order;
/// lines without a `:` are skipped.
pub fn parse_wlrctl_list(text: &str) -> (r: Vec<WindowEntry>)
    ensures
        entries_view(r@) == wlrctl_entries(lines(text@)),
{
    let ls = lines_of(text);
    let mut out: Vec<WindowEntry> = Vec::new();
    let mut i: usize = 0;
    while i < ls.len()
        invariant
            i <= ls@.len(),
            strings_view(ls@) == lines(text@),
            entries_view(out@) == wlrctl_entries(strings_view(ls@).subrange(0, i as int)),
        decreases ls@.len() - i,
    {
        assert(strings_view(ls@).subrange(0, i + 1).drop_last() == strings_view(ls@).subrange(
            0,
            i as int,
        ));
        match parse_wlrctl_line(ls[i].as_str()) {
            Some(e) => {
                out.push(e);
                assert(entries_view(out@) == entries_view(out@.drop_last()).push(e@));
            },
            None => {},
        }
        i += 1;
    }
    assert(strings_view(ls@).subrange(0, ls@.len() as int) == strings_view(ls@));
    out
}

/// The entries of the text that `wmctrl -l -x` printed, in order; lines of
/// fewer than five words are skipped.
pub fn parse_wmctrl_list(text: &str) -> (r: Vec<WindowEntry>)
    ensures
        entries_view(r@) == wmctrl_entries(lines(text@)),
{
    let ls = lines_of(text);
    let mut out: Vec<WindowEntry> = Vec::new();
    let mut i: usize = 0;
    while i < ls.len()
        invariant
            i <= ls@.len(),
            strings_view(ls@) == lines(text@),
            entries_view(out@) == wmctrl_entries(strings_view(ls@).subrange(0, i as int)),
        decreases ls@.len() - i,
    {
        assert(strings_view(ls@).subrange(0, i + 1).drop_last() == strings_view(ls@).subrange(
            0,
            i as int,
        ));
        match parse_wmctrl_line(ls[i].as_str()) {
            Some(e) => {
                out.push(e);
                assert(entries_view(out@) == entries_view(out@.drop_last()).push(e@));
            },
            None => {},
        }
        i += 1;
    }
    assert(strings_view(ls@).subrange(0, ls@.len() as int) == strings_view(ls@));
    out
}

/// A window-listing service, as the rest of an application consumes it.
pub trait WindowService {
    fn list_windows(&self) -> Result<Vec<WindowEntry>, String>;

    fn focus_window(&self, id: &str) -> Result<(), String>;
}

/// Lists windows with the backend that `env` selects: runs its listing
/// command once through `exec` and interprets what came back.
pub fn list_with<F: FnOnce(&Invocation) -> Result<CommandOutput, String>>(env: SessionEnv, exec: F) -> (r:
    Result<Vec<WindowEntry>, WindowError>)
    requires
        forall|inv: &Invocation| exec.requires((inv,)),
    ensures
        exists|inv: Invocation, res: Result<CommandOutput, String>|
            inv@ == list_invocation_of(backend_for(env)) && exec.ensures((&inv,), res) && listed(
                backend_for(env),
                res,
                r,
            ),
{
    let backend = Backend::select(env);
    let inv = backend.list_invocation();
    let res = exec(&inv);
    let r = backend.interpret_list(res);
    assert(inv@ == list_invocation_of(backend_for(env)) && exec.ensures((&inv,), res) && listed(
        backend_for(env),
        res,
        r,
    ));
    r
}

/// Focuses the window `id` with the backend that `env` selects: runs its
/// focusing command once through `exec` and interprets what came back.
pub fn focus_with<F: FnOnce(&Invocation) -> Result<CommandOutput, String>>(
    env: SessionEnv,
    id: &str,
    exec: F,
) -> (r: Result<(), WindowError>)
    requires
        forall|inv: &Invocation| exec.requires((inv,)),
    ensures
        exists|inv: Invocation, res: Result<CommandOutput, String>|
            inv@ == focus_invocation_of(backend_for(env), id@) && exec.ensures((&inv,), res)
                && focused(backend_for(env), res, r),
{
    let backend = Backend::select(env);
    let inv = backend.focus_invocation(id);
    let res = exec(&inv);
    let r = backend.interpret_focus(res);
    assert(inv@ == focus_invocation_of(backend_for(env), id@) && exec.ensures((&inv,), res)
        && focused(backend_for(env), res, r));
    r
}

/// The window service for Linux desktops. Backend selection is redone on
/// every call, so each call sees the environment as it is then.
pub struct LinuxWindowService;

impl LinuxWindowService {
    pub fn new() -> Self {
        LinuxWindowService
    }

    pub fn list_windows<F: FnOnce(&Invocation) -> Result<CommandOutput, String>>(
        &self,
        env: SessionEnv,
        exec: F,
    ) -> (r: Result<Vec<WindowEntry>, WindowError>)
        requires
            forall|inv: &Invocation| exec.requires((inv,)),
        ensures
            exists|inv: Invocation, res: Result<CommandOutput, String>|
                inv@ == list_invocation_of(backend_for(env)) && exec.ensures((&inv,), res)
                    && listed(backend_for(env), res, r),
    {
        list_with(env, exec)
    }

    pub fn focus_window<F: FnOnce(&Invocation) -> Result<CommandOutput, String>>(
        &self,
        env: SessionEnv,
        id: &str,
        exec: F,
    ) -> (r: Result<(), WindowError>)
        requires
            forall|inv: &Invocation| exec.requires((inv,)),
        ensures
            exists|inv: Invocation, res: Result<CommandOutput, String>|
                inv@ == focus_invocation_of(backend_for(env), id@) && exec.ensures((&inv,), res)
                    && focused(backend_for(env), res, r),
    {
        focus_with(env, id, exec)
    }
}

/// Stateless access to the same operations.
pub struct WindowManager;

impl WindowManager {
    pub fn list_windows<F: FnOnce(&Invocation) -> Result<CommandOutput, String>>(
        env: SessionEnv,
        exec: F,
    ) -> (r: Result<Vec<WindowEntry>, WindowError>)
        requires
            forall|inv: &Invocation| exec.requires((inv,)),
        ensures
            exists|inv: Invocation, res: Result<CommandOutput, String>|
                inv@ == list_invocation_of(backend_for(env)) && exec.ensures((&inv,), res)
                    && listed(backend_for(env), res, r),
    {
        list_with(env, exec)
    }

    pub fn focus_window<F: FnOnce(&Invocation) -> Result<CommandOutput, String>>(
        env: SessionEnv,
        id: &str,
        exec: F,
    ) -> (r: Result<(), WindowError>)
        requires
            forall|inv: &Invocation| exec.requires((inv,)),
        ensures
            exists|inv: Invocation, res: Result<CommandOutput, String>|
                inv@ == focus_invocation_of(backend_for(env), id@) && exec.ensures((&inv,), res)
                    && focused(backend_for(env), res, r),
    {
        focus_with(env, id, exec)
    }
}

impl WindowError {
    /// The error as one descriptive line.
    pub fn message(&self) -> (r: String)
        ensures
            r@ == error_message(*self),
    {
        match self {
            WindowError::Execution(b, detail) => {
                let mut m = "Failed to execute ".to_string();
                m.append(b.program());
                m.append(": ");
                m.append(detail.as_str());
                m
            },
            WindowError::CommandFailed(b) => {
                let mut m = b.program().to_string();
                m.append(" command failed");
                m
            },
            WindowError::ParseFailed(b, detail) => {
                let mut m = "Failed to parse ".to_string();
                m.append(b.program());
                m.append(" output: ");
                m.append(detail.as_str());
                m
            },
            WindowError::FocusFailed(b) => {
                let mut m = "Failed to focus window via ".to_string();
                m.append(b.program());
                m
            },
        }
    }
}

pub open spec fn error_message(e: WindowError) -> Seq<char> {
    match e {
        WindowError::Execution(b, d) => "Failed to execute "@ + program_of(b) + ": "@ + d@,
        WindowError::CommandFailed(b) => program_of(b) + " command failed"@,
        WindowError::ParseFailed(b, d) => "Failed to parse "@ + program_of(b) + " output: "@ + d@,
        WindowError::FocusFailed(b) => "Failed to focus window via "@ + program_of(b),
    }
}

/// The entries with every missing icon filled in: resolved from the
/// lowercased class. An icon already present is kept, and so is every other
/// field; the resolver's cache only grows.
pub fn with_icons<F: Fn(&Probe) -> Answer>(
    entries: Vec<WindowEntry>,
    resolver: &mut CachedIconResolver,
    bases: &Vec<String>,
    probe: &F,
) -> (r: Vec<WindowEntry>)
    requires
        forall|p: &Probe| probe.requires((p,)),
    ensures
        r@.len() == entries@.len(),
        forall|i: int|
            0 <= i < r@.len() ==> {
                &&& #[trigger] r@[i].title@ == entries@[i].title@
                &&& r@[i].class@ == entries@[i].class@
                &&& r@[i].address@ == entries@[i].address@
                &&& entries@[i].icon is Some ==> opt_view(r@[i].icon) == opt_view(entries@[i].icon)
                &&& entries@[i].icon is None ==> final(resolver)@.contains_key(
                    lower_of(entries@[i].class@),
                ) && opt_view(r@[i].icon) == final(resolver)@[lower_of(entries@[i].class@)]
            },
        forall|k: Seq<char>|
            old(resolver)@.contains_key(k) ==> #[trigger] final(resolver)@.contains_key(k)
                && final(resolver)@[k] == old(resolver)@[k],
        forall|i: int|
            0 <= i < r@.len() && entries@[i].icon is None && !old(resolver)@.contains_key(
                lower_of(entries@[i].class@),
            ) ==> offers(probe, #[trigger] opt_view(r@[i].icon)),
        forall|oracle: spec_fn(ProbeView) -> AnswerView|
            answers_as(probe, oracle) ==> forall|i: int|
                0 <= i < r@.len() && entries@[i].icon is None ==> #[trigger] opt_view(r@[i].icon)
                    == served(old(resolver)@, lower_of(entries@[i].class@), strings_view(bases@), oracle),
{
    let mut out: Vec<WindowEntry> = Vec::new();
    let mut i: usize = 0;
    while i < entries.len()
        invariant
            i <= entries@.len(),
            out@.len() == i,
            forall|p: &Probe| probe.requires((p,)),
            forall|j: int|
                0 <= j < i ==> {
                    &&& #[trigger] out@[j].title@ == entries@[j].title@
                    &&& out@[j].class@ == entries@[j].class@
                    &&& out@[j].address@ == entries@[j].address@
                    &&& entries@[j].icon is Some ==> opt_view(out@[j].icon) == opt_view(
                        entries@[j].icon,
                    )
                    &&& entries@[j].icon is None ==> resolver@.contains_key(
                        lower_of(entries@[j].class@),
                    ) && opt_view(out@[j].icon) == resolver@[lower_of(entries@[j].class@)]
                },
            forall|k: Seq<char>|
                old(resolver)@.contains_key(k) ==> #[trigger] resolver@.contains_key(k)
                    && resolver@[k] == old(resolver)@[k],
            forall|k: Seq<char>|
                #[trigger] resolver@.contains_key(k) && !old(resolver)@.contains_key(k) ==> offers(
                    probe,
                    resolver@[k],
                ),
            forall|oracle: spec_fn(ProbeView) -> AnswerView|
                answers_as(probe, oracle) ==> forall|k: Seq<char>|
                    #[trigger] resolver@.contains_key(k) && !old(resolver)@.contains_key(k)
                        ==> resolver@[k] == resolved(k, strings_view(bases@), oracle),
        decreases entries@.len() - i,
    {
        let ghost before = resolver@;
        let e = &entries[i];
        let icon = match &e.icon {
            Some(s) => Some(s.clone()),
            None => {
                let token = lowercase(e.class.as_str());
                resolver.resolve_icon(token.as_str(), bases, probe)
            },
        };
        assert(forall|k: Seq<char>|
            before.contains_key(k) ==> #[trigger] resolver@.contains_key(k) && resolver@[k]
                == before[k]);
        assert forall|k: Seq<char>|
            #[trigger] resolver@.contains_key(k) && !old(resolver)@.contains_key(k) implies offers(
            probe,
            resolver@[k],
        ) by {
            if !before.contains_key(k) {
                assert(resolver@[k] == opt_view(icon));
            }
        }
        assert forall|oracle: spec_fn(ProbeView) -> AnswerView|
            answers_as(probe, oracle) implies forall|k: Seq<char>|
            #[trigger] resolver@.contains_key(k) && !old(resolver)@.contains_key(k) ==> resolver@[k]
                == resolved(k, strings_view(bases@), oracle) by {
            assert forall|k: Seq<char>|
                #[trigger] resolver@.contains_key(k) && !old(resolver)@.contains_key(k) implies resolver@[k]
                == resolved(k, strings_view(bases@), oracle) by {
                if !before.contains_key(k) {
                    assert(resolver@[k] == opt_view(icon));
                }
            }
        }
        out.push(
            WindowEntry {
                title: e.title.clone(),
                class: e.class.clone(),
                address: e.address.clone(),
                icon,
            },
        );
        i += 1;
    }
    assert forall|oracle: spec_fn(ProbeView) -> AnswerView|
        answers_as(probe, oracle) implies forall|i: int|
        0 <= i < out@.len() && entries@[i].icon is None ==> #[trigger] opt_view(out@[i].icon)
            == served(old(resolver)@, lower_of(entries@[i].class@), strings_view(bases@), oracle) by {
        assert forall|i: int|
            0 <= i < out@.len() && entries@[i].icon is None implies #[trigger] opt_view(out@[i].icon)
            == served(old(resolver)@, lower_of(entries@[i].class@), strings_view(bases@), oracle) by {
            assert(out@[i].title@ == entries@[i].title@);
        }
    }
    assert forall|i: int|
        0 <= i < out@.len() && entries@[i].icon is None && !old(resolver)@.contains_key(
            lower_of(entries@[i].class@),
        ) implies offers(probe, #[trigger] opt_view(out@[i].icon)) by {
        assert(out@[i].title@ == entries@[i].title@);
    }
    out
}

/// The entries with every missing icon asked of `resolver` under the
/// lowercased class. An icon already present is kept, and so is every other
/// field.
pub fn fill_missing_icons<R: IconResolver>(entries: Vec<WindowEntry>, resolver: &R) -> (r: Vec<
    WindowEntry,
>)
    ensures
        r@.len() == entries@.len(),
        forall|i: int|
            0 <= i < r@.len() ==> {
                &&& #[trigger] r@[i].title@ == entries@[i].title@
                &&& r@[i].class@ == entries@[i].class@
                &&& r@[i].address@ == entries@[i].address@
                &&& entries@[i].icon is Some ==> opt_view(r@[i].icon) == opt_view(entries@[i].icon)
                &&& entries@[i].icon is None ==> resolver.resolves(
                    lower_of(entries@[i].class@),
                    opt_view(r@[i].icon),
                )
            },
{
    let mut out: Vec<WindowEntry> = Vec::new();
    let mut i: usize = 0;
    while i < entries.len()
        invariant
            i <= entries@.len(),
            out@.len() == i,
            forall|j: int|
                0 <= j < i ==> {
                    &&& #[trigger] out@[j].title@ == entries@[j].title@
                    &&& out@[j].class@ == entries@[j].class@
                    &&& out@[j].address@ == entries@[j].address@
                    &&& entries@[j].icon is Some ==> opt_view(out@[j].icon) == opt_view(
                        entries@[j].icon,
                    )
                    &&& entries@[j].icon is None ==> resolver.resolves(
                        lower_of(entries@[j].class@),
                        opt_view(out@[j].icon),
                    )
                },
        decreases entries@.len() - i,
    {
        let e = &entries[i];
        let icon = match &e.icon {
            Some(s) => Some(s.clone()),
            None => {
                let token = lowercase(e.class.as_str());
                resolver.resolve_icon(token.as_str())
            },
        };
        out.push(
            WindowEntry {
                title: e.title.clone(),
                class: e.class.clone(),
                address: e.address.clone(),
                icon,
            },
        );
        i += 1;
    }
    out
}

} // verus!
