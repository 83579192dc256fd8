//! The launcher's default settings: the model choice, the theme and the
//! prompt tools that a fresh configuration receives.
use crate::domain::{AiTool, ThemeConfig};
use crate::text::opt_view;
use vstd::prelude::*;

verus! {

/// The built-in theme.
pub fn default_theme() -> (r: ThemeConfig)
    ensures
        r.name@ == "Tokyo Night"@,
        r.primary@ == "#7aa2f7"@,
        r.secondary@ == "#bb9af7"@,
        r.background@ == "#1a1b26"@,
        r.surface@ == "#24283b"@,
        r.text@ == "#c0caf5"@,
        !r.is_custom,
{
    ThemeConfig {
        name: "Tokyo Night".to_string(),
        primary: "#7aa2f7".to_string(),
        secondary: "#bb9af7".to_string(),
        background: "#1a1b26".to_string(),
        surface: "#24283b".to_string(),
        text: "#c0caf5".to_string(),
        is_custom: false,
    }
}

/// The built-in tool that rephrases the selection.
pub fn rephrase_tool() -> (r: AiTool)
    ensures
        r.id@ == "rephrase"@,
        r.name@ == "Rephrase Selection"@,
        r.description@ == "Improve clarity and grammar"@,
        r.keywords@.len() == 4,
        r.keywords@[0]@ == "rephrase"@,
        r.keywords@[1]@ == "rewrite"@,
        r.keywords@[2]@ == "fix"@,
        r.keywords@[3]@ == "improve"@,
{
    let mut keywords: Vec<String> = Vec::new();
    keywords.push("rephrase".to_string());
    keywords.push("rewrite".to_string());
    keywords.push("fix".to_string());
    keywords.push("improve".to_string());
    AiTool {
        id: "rephrase".to_string(),
        name: "Rephrase Selection".to_string(),
        description: "Improve clarity and grammar".to_string(),
        prompt_template: "Identity the language of the following text and rephrase it to improve clarity and grammar. Return ONLY the improved text wrapped in a markdown code block (using ```text or the appropriate language). Do not add any conversational text.\n\nText:\n{{selection}}".to_string(),
        keywords,
        icon: "\u{270f}\u{fe0f}".to_string(),
    }
}

/// Fills in the model settings when no model was chosen: the local model,
/// served at the default address, and its default name. A chosen model
/// leaves all three as they were.
pub fn apply_model_defaults(
    preferred_model: &mut String,
    local_model_url: &mut Option<String>,
    ollama_model: &mut Option<String>,
)
    ensures
        old(preferred_model)@.len() == 0 ==> final(preferred_model)@ == "local"@ && opt_view(
            *final(local_model_url),
        ) == Some("http://localhost:11434"@) && opt_view(*final(ollama_model)) == Some(
            "llama3"@,
        ),
        old(preferred_model)@.len() != 0 ==> *final(preferred_model) == *old(preferred_model)
            && *final(local_model_url) == *old(local_model_url) && *final(ollama_model) == *old(
            ollama_model,
        ),
{
    if preferred_model.as_str().unicode_len() == 0 {
        *preferred_model = "local".to_string();
        *local_model_url = Some("http://localhost:11434".to_string());
        *ollama_model = Some("llama3".to_string());
    }
}

/// The theme, or the built-in one where none is set.
pub fn theme_or_default(theme: Option<ThemeConfig>) -> (r: ThemeConfig)
    ensures
        theme matches Some(t) ==> r == t,
        theme is None ==> r.name@ == "Tokyo Night"@ && !r.is_custom,
{
    match theme {
        Some(t) => t,
        None => default_theme(),
    }
}

/// The tools, or the built-in rephrasing tool where there are none.
pub fn tools_or_default(tools: Vec<AiTool>) -> (r: Vec<AiTool>)
    ensures
        tools@.len() > 0 ==> r@ == tools@,
        tools@.len() == 0 ==> r@.len() == 1 && r@[0].id@ == "rephrase"@,
{
    if tools.len() > 0 {
        tools
    } else {
        let mut r: Vec<AiTool> = Vec::new();
        r.push(rephrase_tool());
        r
    }
}

} // verus!
