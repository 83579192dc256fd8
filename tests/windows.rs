use std::cell::RefCell;

use stratos_core::icons::{search_dirs, Answer, CachedIconResolver, Probe};
use stratos_core::windows::{
    parse_hyprland_clients, parse_wlrctl_line, parse_wlrctl_list, parse_wmctrl_line,
    parse_wmctrl_list, with_icons, Backend, CommandOutput, Invocation, LinuxWindowService,
    SessionEnv, WindowEntry, WindowError, WindowManager,
};

fn env(hyprland: bool, wayland: bool) -> SessionEnv {
    SessionEnv { hyprland_instance_signature: hyprland, wayland_display: wayland }
}

fn ok_output(stdout: &str) -> Result<CommandOutput, String> {
    Ok(CommandOutput { success: true, code: Some(0), stdout: stdout.as_bytes().to_vec(), stderr: Vec::new() })
}

fn failed_output(stdout: &str) -> Result<CommandOutput, String> {
    Ok(CommandOutput { success: false, code: Some(1), stdout: stdout.as_bytes().to_vec(), stderr: Vec::new() })
}

fn args_of(inv: &Invocation) -> Vec<String> {
    inv.args.clone()
}

#[test]
fn selection_without_wayland_or_hyprland_is_wmctrl() {
    assert_eq!(Backend::select(env(false, false)), Backend::Wmctrl);
}

#[test]
fn selection_with_wayland_only_is_wlrctl() {
    assert_eq!(Backend::select(env(false, true)), Backend::Wlrctl);
}

#[test]
fn selection_with_hyprland_is_hyprland() {
    assert_eq!(Backend::select(env(true, false)), Backend::Hyprland);
    assert_eq!(Backend::select(env(true, true)), Backend::Hyprland);
}

#[test]
fn invocations_are_bit_exact() {
    let i = Backend::Hyprland.list_invocation();
    assert_eq!(i.program, "hyprctl");
    assert_eq!(args_of(&i), vec!["clients", "-j"]);
    let i = Backend::Hyprland.focus_invocation("0xabc");
    assert_eq!(i.program, "hyprctl");
    assert_eq!(args_of(&i), vec!["dispatch", "focuswindow", "address:0xabc"]);
    let i = Backend::Wlrctl.list_invocation();
    assert_eq!(i.program, "wlrctl");
    assert_eq!(args_of(&i), vec!["toplevel", "list"]);
    let i = Backend::Wlrctl.focus_invocation("firefox");
    assert_eq!(args_of(&i), vec!["toplevel", "focus", "firefox"]);
    let i = Backend::Wmctrl.list_invocation();
    assert_eq!(i.program, "wmctrl");
    assert_eq!(args_of(&i), vec!["-l", "-x"]);
    let i = Backend::Wmctrl.focus_invocation("0x01");
    assert_eq!(args_of(&i), vec!["-i", "-a", "0x01"]);
}

#[test]
fn hyprland_parse_one_client() {
    let input = br#"[{"class":"org.mozilla.firefox","title":"Mozilla Firefox","address":"0x1"}]"#;
    let entries = parse_hyprland_clients(input).unwrap();
    assert_eq!(entries.len(), 1);
    assert_eq!(entries[0].title, "Mozilla Firefox");
    assert_eq!(entries[0].class, "org.mozilla.firefox");
    assert_eq!(entries[0].address, "0x1");
    assert_eq!(entries[0].icon, None);
}

#[test]
fn hyprland_missing_fields_are_empty() {
    let input = br#"[{"class":"kitty","pid":12}, 5]"#;
    let entries = parse_hyprland_clients(input).unwrap();
    assert_eq!(entries.len(), 2);
    assert_eq!(entries[0].class, "kitty");
    assert_eq!(entries[0].title, "");
    assert_eq!(entries[0].address, "");
    assert_eq!(entries[1].class, "");
}

#[test]
fn hyprland_malformed_output_is_a_parse_failure() {
    assert!(parse_hyprland_clients(b"{not json").is_err());
    assert!(parse_hyprland_clients(br#"{"class":"x"}"#).is_err());
    let r = Backend::Hyprland.interpret_list(ok_output("oops"));
    assert!(matches!(r, Err(WindowError::ParseFailed(Backend::Hyprland, _))));
}

#[test]
fn wlrctl_parse_line() {
    let e = parse_wlrctl_line("org.wezfurlong.wezterm: WezTerm").unwrap();
    assert_eq!(e.class, "org.wezfurlong.wezterm");
    assert_eq!(e.title, "WezTerm");
    assert_eq!(e.address, "org.wezfurlong.wezterm");
    assert_eq!(e.icon, None);
}

#[test]
fn wlrctl_splits_at_first_colon_and_skips_lines_without_one() {
    let entries = parse_wlrctl_list("firefox: Page: Title\nno colon here\n\n  code :  main.rs  \r\n");
    assert_eq!(entries.len(), 2);
    assert_eq!(entries[0].class, "firefox");
    assert_eq!(entries[0].title, "Page: Title");
    assert_eq!(entries[1].class, "code");
    assert_eq!(entries[1].address, "code");
    assert_eq!(entries[1].title, "main.rs");
}

#[test]
fn wmctrl_parse_line() {
    let e = parse_wmctrl_line("0x02800003  0 pycharm.PyCharm  ubuntu PyCharm Projects").unwrap();
    assert_eq!(e.class, "PyCharm");
    assert_eq!(e.title, "PyCharm Projects");
    assert_eq!(e.address, "0x02800003");
}

#[test]
fn wmctrl_needs_five_words() {
    assert!(parse_wmctrl_line("0x01 0 term host").is_none());
    let entries = parse_wmctrl_list("0x01 0 a.b.Term host  one   two\nshort line\n0x02 -1 nodot host t");
    assert_eq!(entries.len(), 2);
    assert_eq!(entries[0].class, "Term");
    assert_eq!(entries[0].title, "one two");
    assert_eq!(entries[1].class, "nodot");
    assert_eq!(entries[1].title, "t");
}

#[test]
fn wmctrl_listing_ignores_exit_status() {
    let r = Backend::Wmctrl.interpret_list(failed_output("0x01 0 a.B host T"));
    let entries = r.ok().unwrap();
    assert_eq!(entries.len(), 1);
    assert_eq!(entries[0].class, "B");
}

#[test]
fn unsuccessful_listing_is_a_command_failure() {
    assert!(matches!(
        Backend::Hyprland.interpret_list(failed_output("[]")),
        Err(WindowError::CommandFailed(Backend::Hyprland))
    ));
    assert!(matches!(
        Backend::Wlrctl.interpret_list(failed_output("a: b")),
        Err(WindowError::CommandFailed(Backend::Wlrctl))
    ));
}

#[test]
fn spawn_failure_is_an_execution_failure() {
    let r = Backend::Wlrctl.interpret_list(Err("No such file or directory".to_string()));
    match r {
        Err(e) => {
            assert!(matches!(&e, WindowError::Execution(Backend::Wlrctl, d) if d == "No such file or directory"));
            assert_eq!(e.message(), "Failed to execute wlrctl: No such file or directory");
        }
        Ok(_) => panic!("expected an error"),
    }
}

#[test]
fn error_messages() {
    assert_eq!(WindowError::CommandFailed(Backend::Hyprland).message(), "hyprctl command failed");
    assert_eq!(WindowError::FocusFailed(Backend::Wmctrl).message(), "Failed to focus window via wmctrl");
    assert_eq!(
        WindowError::ParseFailed(Backend::Hyprland, "eof".to_string()).message(),
        "Failed to parse hyprctl output: eof"
    );
}

#[test]
fn focus_outcomes() {
    assert!(Backend::Wmctrl.interpret_focus(ok_output("")).is_ok());
    assert!(matches!(
        Backend::Hyprland.interpret_focus(failed_output("")),
        Err(WindowError::FocusFailed(Backend::Hyprland))
    ));
}

#[test]
fn service_runs_the_selected_backend_once() {
    let seen: RefCell<Vec<(String, Vec<String>)>> = RefCell::new(Vec::new());
    let service = LinuxWindowService::new();
    let r = service.list_windows(env(false, true), |inv: &Invocation| {
        seen.borrow_mut().push((inv.program.clone(), inv.args.clone()));
        ok_output("org.wezfurlong.wezterm: WezTerm\n")
    });
    let entries = r.ok().unwrap();
    assert_eq!(entries.len(), 1);
    assert_eq!(entries[0].title, "WezTerm");
    assert_eq!(seen.borrow().len(), 1);
    assert_eq!(seen.borrow()[0].0, "wlrctl");
}

#[test]
fn manager_focuses_through_the_selected_backend() {
    let seen: RefCell<Vec<String>> = RefCell::new(Vec::new());
    let r = WindowManager::focus_window(env(true, false), "0x55", |inv: &Invocation| {
        seen.borrow_mut().extend(inv.args.iter().cloned());
        ok_output("ok")
    });
    assert!(r.is_ok());
    assert_eq!(*seen.borrow(), vec!["dispatch", "focuswindow", "address:0x55"]);
    let listed = WindowManager::list_windows(env(false, false), |_inv: &Invocation| {
        ok_output("0x9 0 x.Y host title")
    });
    assert_eq!(listed.ok().unwrap()[0].address, "0x9");
}

#[test]
fn missing_icons_are_resolved_from_lowercased_class() {
    let entries = vec![
        WindowEntry { title: "t".to_string(), class: "Firefox".to_string(), address: "1".to_string(), icon: None },
        WindowEntry { title: "u".to_string(), class: "Code".to_string(), address: "2".to_string(), icon: Some("/kept.png".to_string()) },
    ];
    let asked: RefCell<Vec<String>> = RefCell::new(Vec::new());
    let probe = |p: &Probe| match p {
        Probe::Theme(t) => {
            asked.borrow_mut().push(t.clone());
            if t == "firefox" {
                Answer::Found { path: "/theme/firefox.svg".to_string(), canonical: None }
            } else {
                Answer::Absent
            }
        }
        _ => Answer::Absent,
    };
    let mut resolver = CachedIconResolver::new();
    let bases = search_dirs(None, None, None);
    let out = with_icons(entries, &mut resolver, &bases, &probe);
    assert_eq!(out[0].icon, Some("/theme/firefox.svg".to_string()));
    assert_eq!(out[1].icon, Some("/kept.png".to_string()));
    assert_eq!(out[1].class, "Code");
    assert_eq!(*asked.borrow(), vec!["firefox"]);
}
