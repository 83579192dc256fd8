//! The user's standard directories, as the `dirs` crate finds them, and the
//! directories derived from them. What `dirs` returns depends on the
//! environment, so nothing is promised of it; what is derived is stated.
use crate::icons::{icon_search_dirs, join, join_path, opt_str_view, search_dirs};
use crate::text::{opt_view, strings_view};
use vstd::prelude::*;

verus! {

/// Relies on `dirs::config_dir`: the user's configuration directory, where
/// one can be found.
#[verifier::external_body]
fn user_config_dir() -> (r: Option<String>) {
    dirs::config_dir().map(|p| p.to_string_lossy().into_owned())
}

/// Relies on `dirs::data_local_dir`: the user's local data directory, where
/// one can be found.
#[verifier::external_body]
fn user_data_local_dir() -> (r: Option<String>) {
    dirs::data_local_dir().map(|p| p.to_string_lossy().into_owned())
}

/// Relies on `dirs::home_dir`: the user's home directory, where one can be
/// found.
#[verifier::external_body]
fn user_home_dir() -> (r: Option<String>) {
    dirs::home_dir().map(|p| p.to_string_lossy().into_owned())
}

/// The launcher's configuration directory under a configuration base.
pub open spec fn app_config_dir(base: Seq<char>) -> Seq<char> {
    join_path(base, "stratos-bar"@)
}

/// The launcher's own directory under the user's configuration directory,
/// where the latter can be found.
pub fn app_config_dir_here() -> (r: Option<String>)
    ensures
        r matches Some(d) ==> exists|base: Seq<char>| d@ == app_config_dir(base),
{
    match user_config_dir() {
        Some(base) => {
            let d = join(base.as_str(), "stratos-bar");
            assert(d@ == app_config_dir(base@));
            Some(d)
        },
        None => None,
    }
}

/// The icon search directories for this user: from the value of
/// `XDG_DATA_DIRS` and the local data and home directories that `dirs`
/// finds.
pub fn icon_search_dirs_here(xdg_data_dirs: Option<&str>) -> (r: Vec<String>)
    ensures
        exists|local: Option<Seq<char>>, home: Option<Seq<char>>|
            strings_view(r@) == icon_search_dirs(opt_str_view(xdg_data_dirs), local, home),
{
    let local = user_data_local_dir();
    let home = user_home_dir();
    let r = search_dirs(
        xdg_data_dirs,
        match &local {
            Some(l) => Some(l.as_str()),
            None => None,
        },
        match &home {
            Some(h) => Some(h.as_str()),
            None => None,
        },
    );
    assert(strings_view(r@) == icon_search_dirs(
        opt_str_view(xdg_data_dirs),
        opt_view(local),
        opt_view(home),
    ));
    r
}

/// Reads and writes the launcher's settings in its configuration directory.
pub struct ConfigManager;

impl ConfigManager {
    /// The configuration directory, where the user's can be found.
    pub fn get_config_dir() -> (r: Option<String>)
        ensures
            r matches Some(d) ==> exists|base: Seq<char>| d@ == app_config_dir(base),
    {
        app_config_dir_here()
    }
}

/// The settings store, rooted in the configuration directory or in a
/// directory of the caller's choice.
pub struct FsConfigService {
    custom_root: Option<String>,
}

impl FsConfigService {
    pub closed spec fn root(&self) -> Option<Seq<char>> {
        opt_view(self.custom_root)
    }

    pub fn new() -> (r: Self)
        ensures
            r.root() is None,
    {
        FsConfigService { custom_root: None }
    }

    pub fn new_with_root(root: String) -> (r: Self)
        ensures
            r.root() == Some(root@),
    {
        FsConfigService { custom_root: Some(root) }
    }

    /// The directory that holds the settings file: the chosen root, else the
    /// launcher's configuration directory.
    pub fn get_config_dir(&self) -> (r: Option<String>)
        ensures
            self.root() is Some ==> opt_view(r) == self.root(),
            self.root() is None ==> (r matches Some(d) ==> exists|base: Seq<char>|
                d@ == app_config_dir(base)),
    {
        match &self.custom_root {
            Some(root) => Some(root.clone()),
            None => app_config_dir_here(),
        }
    }
}

} // verus!
