//! The resolution layer of a Linux desktop launcher.
//!
//! - `windows`: window listing and focusing across Hyprland, wlrctl and
//!   wmctrl, with backend selection from the environment and the parsing of
//!   each protocol's output into one record.
//! - `icons`: icon-token resolution by an ordered plan of probes, answered by
//!   an injected filesystem capability, with a permanent cache.
//! - `apps`: desktop entries, `Exec=` lines and the application store.
//! - `search`, `ranking`, `files`: file-search scoring and ranking, the
//!   recent-actions history, file previews and permissions.
//! - `settings`, `places`, `assist`, `domain`: default settings, standard
//!   directories, chat and translation answers, plain records.
//! - `text`, `json`: character-level text handling and the JSON reading that
//!   the parsers build on.
pub mod text;
pub mod json;
pub mod windows;
pub mod icons;
pub mod apps;
pub mod search;
pub mod domain;
pub mod places;
pub mod ranking;
pub mod files;
pub mod settings;
pub mod assist;
