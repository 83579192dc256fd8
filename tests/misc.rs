use stratos_core::domain::Action;
use stratos_core::files::{is_executable_mode, preview_limit, preview_text, with_execute_bits};
use stratos_core::ranking::{get_recent, rank_matches, record_action, sort_by_key_desc};
use stratos_core::settings::{apply_model_defaults, default_theme, theme_or_default, tools_or_default};
use stratos_core::domain::ThemeConfig;

fn action(id: &str, at: u64) -> Action {
    Action {
        id: id.to_string(),
        kind: "app".to_string(),
        content: format!("/bin/{}", id),
        name: id.to_string(),
        icon: None,
        last_accessed: at,
        frequency: 0,
    }
}

#[test]
fn test_read_file_preview_text() {
    assert_eq!(preview_limit(Some(1024)), 1024);
    let content = preview_text(b"Hello, World!\n".to_vec()).unwrap();
    assert!(content.contains("Hello, World!"));
    assert_eq!(preview_limit(None), 2048);
}

#[test]
fn test_read_file_preview_binary() {
    let result = preview_text(vec![0, 1, 2, 3, 4]);
    assert!(result.is_err());
    assert_eq!(result.err().unwrap(), "Binary file detected");
}

#[test]
fn preview_of_invalid_utf8() {
    let bad = preview_text(vec![0xff, 0xfe]).unwrap_err();
    assert!(bad.starts_with("Not valid UTF-8: "));
}

#[test]
fn execute_bits() {
    assert!(is_executable_mode(0o755));
    assert!(is_executable_mode(0o100));
    assert!(!is_executable_mode(0o644));
    assert_eq!(with_execute_bits(0o644), 0o755);
}

#[test]
fn sort_is_stable_and_descending() {
    let sorted = sort_by_key_desc(vec![("a", 1i128), ("b", 3), ("c", 1), ("d", 3), ("e", 2)]);
    let order: Vec<&str> = sorted.iter().map(|p| p.0).collect();
    assert_eq!(order, vec!["b", "d", "e", "a", "c"]);
}

#[test]
fn ranking_takes_the_best() {
    let hits = vec![("x".to_string(), 20i128), ("y".to_string(), 140), ("z".to_string(), 20)];
    assert_eq!(rank_matches(hits.clone(), 2), vec!["y", "x"]);
    assert_eq!(rank_matches(hits, 10), vec!["y", "x", "z"]);
}

#[test]
fn record_updates_or_appends() {
    let mut history = Vec::new();
    record_action(&mut history, action("a", 10));
    assert_eq!(history.len(), 1);
    assert_eq!(history[0].frequency, 1);
    let mut again = action("a", 20);
    again.name = "A".to_string();
    again.icon = Some("/a.png".to_string());
    record_action(&mut history, again);
    assert_eq!(history.len(), 1);
    assert_eq!(history[0].frequency, 2);
    assert_eq!(history[0].last_accessed, 20);
    assert_eq!(history[0].name, "A");
    assert_eq!(history[0].icon, Some("/a.png".to_string()));
    record_action(&mut history, action("a", 30));
    assert_eq!(history[0].icon, Some("/a.png".to_string()));
    assert_eq!(history[0].frequency, 3);
}

#[test]
fn history_is_cut_to_the_most_recent() {
    let mut history = Vec::new();
    for i in 0..101u64 {
        record_action(&mut history, action(&format!("id{}", i), i));
    }
    assert_eq!(history.len(), 100);
    assert_eq!(history[0].id, "id100");
    assert!(history.iter().all(|a| a.id != "id0"));
}

#[test]
fn recent_actions_newest_first() {
    let history = vec![action("old", 1), action("new", 9), action("mid", 5)];
    let recent = get_recent(&history, 2);
    assert_eq!(recent.len(), 2);
    assert_eq!(recent[0].id, "new");
    assert_eq!(recent[1].id, "mid");
}

#[test]
fn model_defaults_only_without_a_choice() {
    let mut preferred = String::new();
    let mut url = None;
    let mut model = None;
    apply_model_defaults(&mut preferred, &mut url, &mut model);
    assert_eq!(preferred, "local");
    assert_eq!(url.as_deref(), Some("http://localhost:11434"));
    assert_eq!(model.as_deref(), Some("llama3"));
    let mut preferred = "cloud".to_string();
    let mut url = None;
    let mut model = None;
    apply_model_defaults(&mut preferred, &mut url, &mut model);
    assert_eq!(preferred, "cloud");
    assert_eq!(url, None);
}

#[test]
fn theme_and_tool_defaults() {
    assert_eq!(default_theme().name, "Tokyo Night");
    let custom = ThemeConfig { name: "Custom".to_string(), ..Default::default() };
    assert_eq!(theme_or_default(Some(custom)).name, "Custom");
    assert_eq!(theme_or_default(None).primary, "#7aa2f7");
    let tools = tools_or_default(Vec::new());
    assert_eq!(tools.len(), 1);
    assert_eq!(tools[0].id, "rephrase");
}
