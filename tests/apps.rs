use stratos_core::apps::{
    command_from_words, list_apps_logic, parse_desktop_entry, parse_exec_command, push_new_app,
    remove_code, script_invocation, strip_codes, AppEntry, AppRepository, FsAppRepository,
};
use stratos_core::icons::IconResolver;

struct OneApp;

impl AppRepository for OneApp {
    fn list_apps(&self) -> Result<Vec<AppEntry>, String> {
        Ok(vec![AppEntry { name: "Test App".to_string(), command: "test".to_string(), icon: None }])
    }
}

struct MockIconResolver;

impl IconResolver for MockIconResolver {
    fn resolve_icon(&self, _icon_name: &str) -> Option<String> {
        Some("/tmp/icon.png".to_string())
    }
}

struct EmptyIcon;

impl IconResolver for EmptyIcon {
    fn resolve_icon(&self, _icon_name: &str) -> Option<String> {
        Some(String::new())
    }
}

struct NoIcons;

impl IconResolver for NoIcons {
    fn resolve_icon(&self, icon_name: &str) -> Option<String> {
        if icon_name == "application-x-executable" {
            Some("/generic.png".to_string())
        } else {
            None
        }
    }
}

#[test]
fn test_list_apps() {
    let mock = OneApp;
    let result = list_apps_logic(&mock);
    assert!(result.is_ok());
    let apps = result.unwrap();
    assert_eq!(apps.len(), 1);
    assert_eq!(apps[0].name, "Test App");
}

#[test]
fn test_app_entry_creation() {
    let app = AppEntry {
        name: "Firefox".to_string(),
        command: "firefox".to_string(),
        icon: Some("firefox.png".to_string()),
    };

    assert_eq!(app.name, "Firefox");
    assert_eq!(app.command, "firefox");
    assert_eq!(app.icon, Some("firefox.png".to_string()));
}

#[test]
fn test_parse_exec_command() {
    assert_eq!(parse_exec_command("firefox"), Some(("firefox".to_string(), vec![])));

    assert_eq!(
        parse_exec_command("echo hello world"),
        Some(("echo".to_string(), vec!["hello".to_string(), "world".to_string()]))
    );

    assert_eq!(parse_exec_command("vlc %U"), Some(("vlc".to_string(), vec![])));

    assert_eq!(
        parse_exec_command("grep \"hello world\" file.txt"),
        Some(("grep".to_string(), vec!["hello world".to_string(), "file.txt".to_string()]))
    );

    assert_eq!(parse_exec_command(""), None);
}

#[test]
fn exec_with_open_quote_is_rejected() {
    assert_eq!(parse_exec_command("sh -c 'echo"), None);
}

#[test]
fn field_codes_are_removed() {
    assert_eq!(strip_codes("app %f %F %u %U %i %c %k end"), "app        end");
    assert_eq!(remove_code("%%f", '%', 'f'), "%");
    assert_eq!(remove_code("x%", '%', 'f'), "x%");
    assert_eq!(strip_codes("100%"), "100%");
}

#[test]
fn words_to_command() {
    assert_eq!(command_from_words(vec![]), None);
    assert_eq!(
        command_from_words(vec!["a".to_string(), "b".to_string()]),
        Some(("a".to_string(), vec!["b".to_string()]))
    );
}

#[test]
fn test_list_apps_finds_desktop_entry() {
    let content = "[Desktop Entry]\nName=Test App\nExec=test-exec %f\nIcon=test-icon\nType=Application\n";
    let repo = FsAppRepository::new_with_paths(MockIconResolver, vec!["/tmp/applications".to_string()]);
    let mut apps = Vec::new();
    if let Some(app) = repo.entry_from_desktop_file(content) {
        push_new_app(&mut apps, app);
    }
    assert_eq!(apps.len(), 1);
    assert_eq!(apps[0].name, "Test App");
    assert_eq!(apps[0].command, "test-exec");
    assert_eq!(apps[0].icon, Some("/tmp/icon.png".to_string()));
}

#[test]
fn test_list_apps_ignores_no_display() {
    let content = "[Desktop Entry]\nName=Hidden App\nExec=hidden\nNoDisplay=true\n";
    let repo = FsAppRepository::new_with_paths(MockIconResolver, vec!["/tmp/applications".to_string()]);
    assert!(repo.entry_from_desktop_file(content).is_none());
}

#[test]
fn desktop_entry_fields_outside_the_section_are_ignored() {
    let content = "Name=Outside\n[Desktop Action new]\nName=Action\nExec=other\n[Desktop Entry]\n  Name=Editor  \nName=Second\nExec=  ed %U  \nNoDisplay=FALSE\n";
    let e = parse_desktop_entry(content).unwrap();
    assert_eq!(e.name, "Editor");
    assert_eq!(e.command, "ed");
    assert_eq!(e.icon, None);
    assert!(parse_desktop_entry("[Desktop Entry]\nName=x\nNoDisplay=TRUE\nExec=y").is_none());
    assert!(parse_desktop_entry("[Desktop Entry]\nExec=y").is_none());
}

#[test]
fn empty_resolved_icon_counts_as_none() {
    let repo = FsAppRepository::new(EmptyIcon);
    let app = repo.entry_from_desktop_file("[Desktop Entry]\nName=A\nExec=a\nIcon=a").unwrap();
    assert_eq!(app.icon, None);
}

#[test]
fn duplicate_names_are_kept_once() {
    let mut apps = Vec::new();
    let a = AppEntry { name: "A".to_string(), command: "a1".to_string(), icon: None };
    let b = AppEntry { name: "A".to_string(), command: "a2".to_string(), icon: None };
    assert!(push_new_app(&mut apps, a));
    assert!(!push_new_app(&mut apps, b));
    assert_eq!(apps.len(), 1);
    assert_eq!(apps[0].command, "a1");
}

#[test]
fn desktop_dirs_and_flatpak_dirs() {
    let repo = FsAppRepository::new(NoIcons);
    assert_eq!(
        repo.desktop_dirs(Some("/a:/b"), Some("/home/u/.local/share")),
        vec!["/a/applications", "/b/applications", "/home/u/.local/share/applications"]
    );
    assert_eq!(
        repo.desktop_dirs(None, None),
        vec!["/usr/share/applications", "/usr/local/share/applications"]
    );
    assert_eq!(
        repo.flatpak_dirs(Some("/home/u/.local/share")),
        vec!["/var/lib/flatpak/exports/share/applications", "/home/u/.local/share/flatpak/exports/share/applications"]
    );
    assert!(repo.scans_app_images());
    let custom = FsAppRepository::new_with_paths(NoIcons, vec!["/x".to_string()]);
    assert_eq!(custom.desktop_dirs(Some("/a"), None), vec!["/x"]);
    assert!(custom.flatpak_dirs(None).is_empty());
    assert!(!custom.scans_app_images());
}

#[test]
fn app_image_falls_back_to_generic_icon() {
    let repo = FsAppRepository::new(NoIcons);
    let app = repo.app_image_entry("Tool", "/home/u/Applications/Tool.AppImage").unwrap();
    assert_eq!(app.name, "Tool");
    assert_eq!(app.command, "/home/u/Applications/Tool.AppImage");
    assert_eq!(app.icon, Some("/generic.png".to_string()));
    assert!(repo.app_image_entry("", "/home/u/Applications/.AppImage").is_none());
}

#[test]
fn scripts_run_through_sh_or_directly() {
    let inv = script_invocation("  /home/u/backup.sh ", Some("--fast \"two words\"")).unwrap();
    assert_eq!(inv.program, "sh");
    assert_eq!(inv.args, vec!["/home/u/backup.sh", "--fast", "two words"]);
    let inv = script_invocation("/usr/bin/tool", None).unwrap();
    assert_eq!(inv.program, "/usr/bin/tool");
    assert!(inv.args.is_empty());
    assert!(script_invocation("/usr/bin/tool", Some("'open")).is_none());
}
