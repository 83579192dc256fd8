//! Plain records that the launcher passes around: settings pieces, history
//! actions, chat messages, translations and file metadata.
use vstd::prelude::*;

verus! {

/// A colour theme.
#[derive(Clone, Debug, Default, PartialEq, Eq)]
pub struct ThemeConfig {
    pub name: String,
    pub primary: String,
    pub secondary: String,
    pub background: String,
    pub surface: String,
    pub text: String,
    pub is_custom: bool,
}

/// A user script and how to call it.
#[derive(Clone, Debug, Default, PartialEq, Eq)]
pub struct ScriptConfig {
    pub id: String,
    pub alias: String,
    pub path: String,
    pub args: Option<String>,
}

/// A prompt-based tool offered in the palette.
#[derive(Clone, Debug, Default, PartialEq, Eq)]
pub struct AiTool {
    pub id: String,
    pub name: String,
    pub description: String,
    pub prompt_template: String,
    pub keywords: Vec<String>,
    pub icon: String,
}

/// File-search settings.
#[derive(Clone, Debug, Default, PartialEq, Eq)]
pub struct FileSearchConfig {
    pub include_hidden: bool,
}

/// Something the user launched, as the history keeps it.
#[derive(Debug, PartialEq, Eq)]
pub struct Action {
    pub id: String,
    /// "app", "script", "window" or "file".
    pub kind: String,
    /// The executable, script or file path.
    pub content: String,
    pub name: String,
    pub icon: Option<String>,
    pub last_accessed: u64,
    pub frequency: u64,
}

impl Clone for Action {
    fn clone(&self) -> (r: Action)
        ensures
            r == *self,
    {
        Action {
            id: self.id.clone(),
            kind: self.kind.clone(),
            content: self.content.clone(),
            name: self.name.clone(),
            icon: match &self.icon {
                Some(s) => Some(s.clone()),
                None => None,
            },
            last_accessed: self.last_accessed,
            frequency: self.frequency,
        }
    }
}

/// One chat message.
#[derive(Clone, Debug, PartialEq, Eq)]
pub struct Message {
    pub role: String,
    pub content: String,
}

/// A translated text.
#[derive(Clone, Debug, PartialEq, Eq)]
pub struct TranslationResult {
    pub original_text: String,
    pub translated_text: String,
    pub source_language: String,
    pub target_language: String,
}

/// A text to translate.
#[derive(Clone, Debug, PartialEq, Eq)]
pub struct TranslationRequest {
    pub text: String,
    pub source_lang: Option<String>,
    pub target_lang: String,
}

/// What the launcher shows about a file.
#[derive(Clone, Debug, PartialEq, Eq)]
pub struct FileMetadata {
    pub size: u64,
    pub created: Option<u64>,
    pub is_dir: bool,
    pub readonly: bool,
    pub mime_type: Option<String>,
}

} // verus!
