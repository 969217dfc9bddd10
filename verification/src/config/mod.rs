//! Configuration: a builder that holds what the config file sets (or nothing),
//! the fallback rules that fill in what is missing, and the finished `Config`
//! with the directories that the rest of the library uses.
//!
//! Download and install directories have default values but can be set per
//! profile. When a profile is selected and does not set a download directory,
//! the profile's name is appended to the global one.
pub mod config;
pub mod paths;

pub use paths::DataPath;

use crate::path::{path_join, spec_is_absolute, spec_push};
use crate::sys_dirs::{expansion_free, shell_expand};
use crate::text::starts_with;
use vstd::prelude::*;

verus! {

/// The name under which the library keeps its directories.
pub open spec fn crate_dir_name() -> Seq<char> {
    "dmodman"@
}

/// Why a configuration could not be made.
#[derive(Debug)]
pub enum ConfigError {
    /// The config file could not be read.
    IO { message: String },
    /// The config file is not valid TOML for a configuration.
    Deserialization { message: String },
    /// Expanding a variable in a configured path failed.
    ShellExpand { var_name: String },
}

/// The directories that a profile may set for itself.
pub struct Profile {
    pub download_dir: Option<String>,
    pub install_dir: Option<String>,
}

/// What the config file sets, or nothing. Missing settings are filled in by `build`.
pub struct ConfigBuilder {
    pub apikey: Option<String>,
    pub profile: Option<String>,
    pub download_dir: Option<String>,
    pub install_dir: Option<String>,
    /// The profiles by name; a name occurs at most once.
    pub profiles: Vec<(String, Profile)>,
}

/// The standard directories that the defaults are made from.
pub struct SystemDirs {
    pub home_dir: String,
    pub data_local_dir: String,
    pub cache_dir: String,
    pub config_dir: String,
    /// Where downloads go by default: `$XDG_DOWNLOAD_DIR` or the user's download directory.
    pub xdg_download_dir: String,
    /// Where data goes by default: `$XDG_DATA_DIR` or the user's data directory.
    pub xdg_data_dir: String,
}

/// The profile named `name` among `profiles`: the first entry of that name.
pub open spec fn lookup_profile(profiles: Seq<(String, Profile)>, name: Seq<char>) -> Option<Profile>
    decreases profiles.len(),
{
    if profiles.len() == 0 {
        None
    } else if profiles[0].0@ == name {
        Some(profiles[0].1)
    } else {
        lookup_profile(profiles.skip(1), name)
    }
}

/// The view of an optional text.
pub open spec fn opt_view(o: Option<String>) -> Option<Seq<char>> {
    match o {
        Some(s) => Some(s@),
        None => None,
    }
}

/// The value that an environment variable for a standard directory gives when
/// it is an absolute path or starts with `$HOME`, else the fallback.
pub open spec fn spec_xdg_choice(var: Option<Seq<char>>, fallback: Option<Seq<char>>) -> Option<
    Seq<char>,
> {
    match var {
        Some(v) => if "$HOME"@.is_prefix_of(v) || "/"@.is_prefix_of(v) {
            Some(v)
        } else {
            fallback
        },
        None => fallback,
    }
}

/// Picks `$XDG_DOWNLOAD_DIR` when it is absolute or starts with `$HOME`, else the
/// download directory that `dirs` finds.
pub fn xdg_download_dir(var: Option<String>, fallback: Option<String>) -> (r: Option<String>)
    ensures
        opt_view(r) == spec_xdg_choice(opt_view(var), opt_view(fallback)),
{
    choose_dir(var, fallback)
}

/// Picks `$XDG_DATA_DIR` when it is absolute or starts with `$HOME`, else the
/// data directory that `dirs` finds.
pub fn xdg_data_dir(var: Option<String>, fallback: Option<String>) -> (r: Option<String>)
    ensures
        opt_view(r) == spec_xdg_choice(opt_view(var), opt_view(fallback)),
{
    choose_dir(var, fallback)
}

/// The directory variable `var` when it is absolute or starts with `$HOME`,
/// else `fallback`.
pub open spec fn spec_pick_dir(var: Option<String>, fallback: Option<String>) -> Option<String> {
    match var {
        Some(v) => if "$HOME"@.is_prefix_of(v@) || "/"@.is_prefix_of(v@) {
            Some(v)
        } else {
            fallback
        },
        None => fallback,
    }
}

/// The standard directories made of what was found: the home, local data,
/// cache and configuration directories, and the download and data
/// directories chosen between `$XDG_DOWNLOAD_DIR` / `$XDG_DATA_DIR` and what
/// was found for them. `None` when any of them is missing.
pub open spec fn spec_found_dirs(
    home_dir: Option<String>,
    data_local_dir: Option<String>,
    cache_dir: Option<String>,
    config_dir: Option<String>,
    download_dir: Option<String>,
    data_dir: Option<String>,
    xdg_download_var: Option<String>,
    xdg_data_var: Option<String>,
) -> Option<SystemDirs> {
    match (
        home_dir,
        data_local_dir,
        cache_dir,
        config_dir,
        spec_pick_dir(xdg_download_var, download_dir),
        spec_pick_dir(xdg_data_var, data_dir),
    ) {
        (Some(h), Some(l), Some(c), Some(f), Some(d), Some(a)) => Some(
            SystemDirs {
                home_dir: h,
                data_local_dir: l,
                cache_dir: c,
                config_dir: f,
                xdg_download_dir: d,
                xdg_data_dir: a,
            },
        ),
        _ => None,
    }
}

fn choose_dir(var: Option<String>, fallback: Option<String>) -> (r: Option<String>)
    ensures
        opt_view(r) == spec_xdg_choice(opt_view(var), opt_view(fallback)),
        r == spec_pick_dir(var, fallback),
{
    match var {
        Some(v) => {
            if starts_with(v.as_str(), "$HOME") || starts_with(v.as_str(), "/") {
                Some(v)
            } else {
                fallback
            }
        },
        None => fallback,
    }
}

impl SystemDirs {
    /// The standard directories of the running process. `xdg_download_var` and
    /// `xdg_data_var` are the values of `$XDG_DOWNLOAD_DIR` and `$XDG_DATA_DIR`.
    /// `None` when one of the directories cannot be found.
    pub fn from_env(xdg_download_var: Option<String>, xdg_data_var: Option<String>) -> (r: Option<
        SystemDirs,
    >)
        ensures
            match r {
                Some(d) => {
                    &&& match xdg_download_var {
                        Some(v) => ("$HOME"@.is_prefix_of(v@) || "/"@.is_prefix_of(v@)) ==> d.xdg_download_dir@
                            == v@,
                        None => true,
                    }
                    &&& match xdg_data_var {
                        Some(v) => ("$HOME"@.is_prefix_of(v@) || "/"@.is_prefix_of(v@)) ==> d.xdg_data_dir@
                            == v@,
                        None => true,
                    }
                },
                None => true,
            },
            exists|
                home_dir: Option<String>,
                data_local_dir: Option<String>,
                cache_dir: Option<String>,
                config_dir: Option<String>,
                download_dir: Option<String>,
                data_dir: Option<String>,
            |
                r == spec_found_dirs(
                    home_dir,
                    data_local_dir,
                    cache_dir,
                    config_dir,
                    download_dir,
                    data_dir,
                    xdg_download_var,
                    xdg_data_var,
                ),
    {
        let home_dir = crate::sys_dirs::home_dir();
        let data_local_dir = crate::sys_dirs::data_local_dir();
        let cache_dir = crate::sys_dirs::cache_dir();
        let config_dir = crate::sys_dirs::config_dir();
        let download_dir = crate::sys_dirs::download_dir();
        let data_dir = crate::sys_dirs::data_dir();
        let ghost found = (home_dir, data_local_dir, cache_dir, config_dir, download_dir, data_dir);
        let ghost vars = (xdg_download_var, xdg_data_var);
        let r = SystemDirs::from_found(
            home_dir,
            data_local_dir,
            cache_dir,
            config_dir,
            download_dir,
            data_dir,
            xdg_download_var,
            xdg_data_var,
        );
        assert(r == spec_found_dirs(found.0, found.1, found.2, found.3, found.4, found.5, vars.0, vars.1));
        r
    }

    /// The standard directories made of the directories found and the values
    /// of `$XDG_DOWNLOAD_DIR` and `$XDG_DATA_DIR`, as `spec_found_dirs` says.
    pub fn from_found(
        home_dir: Option<String>,
        data_local_dir: Option<String>,
        cache_dir: Option<String>,
        config_dir: Option<String>,
        download_dir: Option<String>,
        data_dir: Option<String>,
        xdg_download_var: Option<String>,
        xdg_data_var: Option<String>,
    ) -> (r: Option<SystemDirs>)
        ensures
            r == spec_found_dirs(
                home_dir,
                data_local_dir,
                cache_dir,
                config_dir,
                download_dir,
                data_dir,
                xdg_download_var,
                xdg_data_var,
            ),
    {
        let xdg_download_dir = choose_dir(xdg_download_var, download_dir);
        let xdg_data_dir = choose_dir(xdg_data_var, data_dir);
        match (home_dir, data_local_dir, cache_dir, config_dir, xdg_download_dir, xdg_data_dir) {
            (Some(h), Some(l), Some(c), Some(f), Some(d), Some(a)) => Some(
                SystemDirs {
                    home_dir: h,
                    data_local_dir: l,
                    cache_dir: c,
                    config_dir: f,
                    xdg_download_dir: d,
                    xdg_data_dir: a,
                },
            ),
            _ => None,
        }
    }
}

/// Where downloads go when nothing is configured: `dmodman` under the download directory.
pub open spec fn spec_default_download_dir(dirs: SystemDirs) -> Seq<char> {
    spec_push(dirs.xdg_download_dir@, crate_dir_name())
}

/// Where a profile's mods are installed when nothing is configured.
pub open spec fn spec_install_dir_for_profile(dirs: SystemDirs, profile: Seq<char>) -> Seq<char> {
    spec_push(
        spec_push(
            spec_push(spec_push(dirs.xdg_data_dir@, crate_dir_name()), "profiles"@),
            profile,
        ),
        "install"@,
    )
}

/// Where downloads go when nothing is configured.
pub fn default_download_dir(dirs: &SystemDirs) -> (r: String)
    ensures
        r@ == spec_default_download_dir(*dirs),
{
    path_join(dirs.xdg_download_dir.as_str(), "dmodman")
}

/// Where the mods of `profile` are installed when nothing is configured.
pub fn install_dir_for_profile(dirs: &SystemDirs, profile: &str) -> (r: String)
    ensures
        r@ == spec_install_dir_for_profile(*dirs, profile@),
{
    let a = path_join(dirs.xdg_data_dir.as_str(), "dmodman");
    let b = path_join(a.as_str(), "profiles");
    let c = path_join(b.as_str(), profile);
    path_join(c.as_str(), "install")
}

/// The directory of the library's configuration files.
pub open spec fn spec_config_dir(config_root: Seq<char>) -> Seq<char> {
    spec_push(config_root, crate_dir_name())
}

/// The directory of the library's configuration files, under `config_root`
/// (the user's configuration directory).
pub fn config_dir(config_root: &str) -> (r: String)
    ensures
        r@ == spec_config_dir(config_root@),
{
    path_join(config_root, "dmodman")
}

/// The config file.
pub fn config_file(config_root: &str) -> (r: String)
    ensures
        r@ == spec_push(spec_config_dir(config_root@), "config.toml"@),
{
    let d = config_dir(config_root);
    path_join(d.as_str(), "config.toml")
}

/// The file that holds the API key.
pub fn apikey_file(config_root: &str) -> (r: String)
    ensures
        r@ == spec_push(spec_config_dir(config_root@), "apikey"@),
{
    let d = config_dir(config_root);
    path_join(d.as_str(), "apikey")
}

/// The text of the API key file without its trailing line break.
pub open spec fn spec_trim_newline(s: Seq<char>) -> Seq<char> {
    if s.len() > 0 && s.last() == '\n' {
        let t = s.drop_last();
        if t.len() > 0 && t.last() == '\r' {
            t.drop_last()
        } else {
            t
        }
    } else {
        s
    }
}

/// Removes one trailing line break (`\n` or `\r\n`) from the text of the API key file.
pub fn trim_newline(s: String) -> (r: String)
    ensures
        r@ == spec_trim_newline(s@),
{
    let v = crate::path::chars_of(s.as_str());
    let mut end = v.len();
    if end > 0 && v[end - 1] == '\n' {
        end = end - 1;
        if end > 0 && v[end - 1] == '\r' {
            end = end - 1;
        }
    } else {
        return s;
    }
    let mut r = String::new();
    let mut i: usize = 0;
    while i < end
        invariant
            i <= end <= v.len(),
            r@ == v@.take(i as int),
        decreases end - i,
    {
        crate::text::push_char(&mut r, v[i]);
        i = i + 1;
        assert(r@ =~= v@.take(i as int));
    }
    proof {
        let t = s@.drop_last();
        if end == v.len() - 1 {
            assert(r@ =~= t);
        } else {
            assert(r@ =~= t.drop_last());
        }
    }
    r
}

/// The download and install directories that `build` fills in before expanding
/// them, or `None` where none is given.
pub open spec fn spec_fallback_dirs(b: ConfigBuilder, dirs: SystemDirs) -> (
    Option<Seq<char>>,
    Option<Seq<char>>,
) {
    let dl = opt_view(b.download_dir);
    let ins = opt_view(b.install_dir);
    match b.profile {
        Some(sel) => match lookup_profile(b.profiles@, sel@) {
            Some(p) => (
                if p.download_dir is None && dl is None {
                    Some(spec_push(spec_default_download_dir(dirs), sel@))
                } else {
                    dl
                },
                if p.install_dir is None && ins is None {
                    Some(spec_install_dir_for_profile(dirs, sel@))
                } else {
                    ins
                },
            ),
            None => (
                match dl {
                    Some(d) => Some(spec_push(d, sel@)),
                    None => Some(spec_push(spec_default_download_dir(dirs), sel@)),
                },
                match ins {
                    Some(i) => Some(spec_push(i, sel@)),
                    None => Some(spec_install_dir_for_profile(dirs, sel@)),
                },
            ),
        },
        None => (
            match dl {
                Some(d) => Some(d),
                None => Some(spec_default_download_dir(dirs)),
            },
            match ins {
                Some(i) => Some(i),
                None => Some(spec_install_dir_for_profile(dirs, "default"@)),
            },
        ),
    }
}

/// A relative directory is taken relative to the home directory.
pub open spec fn spec_absolutize(p: Seq<char>, home: Seq<char>) -> Seq<char> {
    if spec_is_absolute(p) {
        p
    } else {
        spec_push(home, p)
    }
}

/// The profile name that a configuration uses.
pub open spec fn spec_profile_name(p: Option<String>) -> Seq<char> {
    match p {
        Some(s) => s@,
        None => "default"@,
    }
}

fn clone_opt(s: &Option<String>) -> (r: Option<String>)
    ensures
        r == *s,
{
    crate::api::clone_opt_string(s)
}

impl Profile {
    /// A copy of the profile.
    pub fn copy(&self) -> (r: Profile)
        ensures
            r == *self,
    {
        Profile { download_dir: clone_opt(&self.download_dir), install_dir: clone_opt(&self.install_dir) }
    }
}

impl ConfigBuilder {
    /// A builder that sets nothing.
    pub fn new() -> (r: Self)
        ensures
            r.apikey is None,
            r.profile is None,
            r.download_dir is None,
            r.install_dir is None,
            r.profiles@.len() == 0,
    {
        ConfigBuilder {
            apikey: None,
            profile: None,
            download_dir: None,
            install_dir: None,
            profiles: Vec::new(),
        }
    }

    /// The profile named `name`, if there is one.
    pub fn find_profile(&self, name: &String) -> (r: Option<Profile>)
        ensures
            r == lookup_profile(self.profiles@, name@),
    {
        let mut i: usize = 0;
        assert(self.profiles@.skip(0) =~= self.profiles@);
        while i < self.profiles.len()
            invariant
                i <= self.profiles.len(),
                lookup_profile(self.profiles@, name@) == lookup_profile(
                    self.profiles@.skip(i as int),
                    name@,
                ),
            decreases self.profiles.len() - i,
        {
            let ghost rest = self.profiles@.skip(i as int);
            assert(rest.skip(1) =~= self.profiles@.skip(i + 1));
            assert(rest[0] == self.profiles@[i as int]);
            if self.profiles[i].0 == *name {
                return Some(self.profiles[i].1.copy());
            }
            i = i + 1;
        }
        assert(self.profiles@.skip(i as int).len() == 0);
        None
    }

    /// Takes the selected profile's own directories, where it sets them, in
    /// place of the global ones.
    pub fn apply_settings_from_profile(&mut self)
        ensures
            final(self).apikey == old(self).apikey,
            final(self).profile == old(self).profile,
            final(self).profiles == old(self).profiles,
            final(self).download_dir == (match old(self).profile {
                Some(sel) => match lookup_profile(old(self).profiles@, sel@) {
                    Some(p) => if p.download_dir is Some {
                        p.download_dir
                    } else {
                        old(self).download_dir
                    },
                    None => old(self).download_dir,
                },
                None => old(self).download_dir,
            }),
            final(self).install_dir == (match old(self).profile {
                Some(sel) => match lookup_profile(old(self).profiles@, sel@) {
                    Some(p) => if p.install_dir is Some {
                        p.install_dir
                    } else {
                        old(self).install_dir
                    },
                    None => old(self).install_dir,
                },
                None => old(self).install_dir,
            }),
    {
        let found = match &self.profile {
            Some(selected) => self.find_profile(selected),
            None => None,
        };
        if let Some(profile) = found {
            if let Some(dls_dir) = profile.download_dir {
                self.download_dir = Some(dls_dir);
            }
            if let Some(ins_dir) = profile.install_dir {
                self.install_dir = Some(ins_dir);
            }
        }
    }

    /// Sets the API key.
    pub fn apikey(self, apikey: &str) -> (r: Self)
        ensures
            r.apikey matches Some(k) && k@ == apikey@,
            r.profile == self.profile,
            r.download_dir == self.download_dir,
            r.install_dir == self.install_dir,
            r.profiles == self.profiles,
    {
        let mut s = self;
        s.apikey = Some(apikey.to_owned());
        s
    }

    /// Selects a profile and takes its own directories where it sets them.
    pub fn profile(self, profile: &str) -> (r: Self)
        ensures
            r.profile matches Some(p) && p@ == profile@,
            r.apikey == self.apikey,
            r.profiles == self.profiles,
            r.download_dir == (match lookup_profile(self.profiles@, profile@) {
                Some(p) => if p.download_dir is Some {
                    p.download_dir
                } else {
                    self.download_dir
                },
                None => self.download_dir,
            }),
            r.install_dir == (match lookup_profile(self.profiles@, profile@) {
                Some(p) => if p.install_dir is Some {
                    p.install_dir
                } else {
                    self.install_dir
                },
                None => self.install_dir,
            }),
    {
        let mut s = self;
        s.profile = Some(profile.to_owned());
        s.apply_settings_from_profile();
        s
    }

    /// Sets the download directory.
    pub fn download_dir(self, dir: &str) -> (r: Self)
        ensures
            r.download_dir matches Some(d) && d@ == dir@,
            r.apikey == self.apikey,
            r.profile == self.profile,
            r.install_dir == self.install_dir,
            r.profiles == self.profiles,
    {
        let mut s = self;
        s.download_dir = Some(dir.to_owned());
        s
    }

    /// Sets the install directory.
    pub fn install_dir(self, dir: &str) -> (r: Self)
        ensures
            r.install_dir matches Some(d) && d@ == dir@,
            r.apikey == self.apikey,
            r.profile == self.profile,
            r.download_dir == self.download_dir,
            r.profiles == self.profiles,
    {
        let mut s = self;
        s.install_dir = Some(dir.to_owned());
        s
    }

    /// Fills in the download and install directories that are not set, before expansion.
    pub fn fallback_dirs(&self, dirs: &SystemDirs) -> (r: (Option<String>, Option<String>))
        ensures
            (opt_view(r.0), opt_view(r.1)) == spec_fallback_dirs(*self, *dirs),
    {
        match &self.profile {
            Some(selected) => match self.find_profile(selected) {
                Some(profile) => {
                    let dl = if profile.download_dir.is_none() && self.download_dir.is_none() {
                        let d = default_download_dir(dirs);
                        Some(path_join(d.as_str(), selected.as_str()))
                    } else {
                        clone_opt(&self.download_dir)
                    };
                    let ins = if profile.install_dir.is_none() && self.install_dir.is_none() {
                        Some(install_dir_for_profile(dirs, selected.as_str()))
                    } else {
                        clone_opt(&self.install_dir)
                    };
                    (dl, ins)
                },
                None => {
                    let dl = match &self.download_dir {
                        Some(d) => path_join(d.as_str(), selected.as_str()),
                        None => {
                            let d = default_download_dir(dirs);
                            path_join(d.as_str(), selected.as_str())
                        },
                    };
                    let ins = match &self.install_dir {
                        Some(i) => path_join(i.as_str(), selected.as_str()),
                        None => install_dir_for_profile(dirs, selected.as_str()),
                    };
                    (Some(dl), Some(ins))
                },
            },
            None => {
                let dl = match &self.download_dir {
                    Some(d) => d.clone(),
                    None => default_download_dir(dirs),
                };
                let ins = match &self.install_dir {
                    Some(i) => i.clone(),
                    None => install_dir_for_profile(dirs, "default"),
                };
                (Some(dl), Some(ins))
            },
        }
    }

    /// Whether `build` finds both directories: it does unless a selected profile
    /// sets a directory that the builder does not hold.
    pub open spec fn can_build(self, dirs: SystemDirs) -> bool {
        spec_fallback_dirs(self, dirs).0 is Some && spec_fallback_dirs(self, dirs).1 is Some
    }

    /// Makes the configuration: the API key comes from the builder or else from
    /// the API key file (`apikey_from_file`), missing directories are filled in,
    /// `~` and variables in them are expanded, and relative directories are
    /// taken relative to the home directory.
    pub fn build(self, dirs: SystemDirs, apikey_from_file: Option<String>) -> (r: Result<
        Config,
        ConfigError,
    >)
        requires
            self.can_build(dirs),
        ensures
            r matches Ok(c) ==> {
                &&& c.spec_apikey() == (if self.apikey is Some {
                    self.apikey
                } else {
                    apikey_from_file
                })
                &&& c.spec_profile() == spec_profile_name(self.profile)
                &&& c.spec_dirs() == dirs
                &&& expansion_free(spec_fallback_dirs(self, dirs).0->0) ==> c.spec_download_dir()
                    == spec_absolutize(spec_fallback_dirs(self, dirs).0->0, dirs.home_dir@)
                &&& expansion_free(spec_fallback_dirs(self, dirs).1->0) ==> c.spec_install_dir()
                    == spec_absolutize(spec_fallback_dirs(self, dirs).1->0, dirs.home_dir@)
            },
            (expansion_free(spec_fallback_dirs(self, dirs).0->0) && expansion_free(
                spec_fallback_dirs(self, dirs).1->0,
            )) ==> r is Ok,
    {
        let (dl, ins) = self.fallback_dirs(&dirs);
        let dl = match dl {
            Some(d) => d,
            None => String::new(),
        };
        let ins = match ins {
            Some(i) => i,
            None => String::new(),
        };
        let dl = match shell_expand(dl.as_str()) {
            Ok(d) => d,
            Err(var_name) => {
                return Err(ConfigError::ShellExpand { var_name });
            },
        };
        let ins = match shell_expand(ins.as_str()) {
            Ok(i) => i,
            Err(var_name) => {
                return Err(ConfigError::ShellExpand { var_name });
            },
        };
        let apikey = match self.apikey {
            Some(k) => Some(k),
            None => apikey_from_file,
        };
        Ok(Config::new(apikey, self.profile, dl, ins, dirs))
    }
}

/// The finished configuration.
pub struct Config {
    apikey: Option<String>,
    profile: String,
    download_dir: String,
    install_dir: String,
    dirs: SystemDirs,
}

impl Config {
    /// The API key, if one is known.
    pub closed spec fn spec_apikey(self) -> Option<String> {
        self.apikey
    }

    /// The API key, if one is known.
    pub fn apikey(&self) -> (r: Option<String>)
        ensures
            r == self.spec_apikey(),
    {
        clone_opt(&self.apikey)
    }

    /// The selected profile's name.
    pub closed spec fn spec_profile(self) -> Seq<char> {
        self.profile@
    }

    /// Where downloads go.
    pub closed spec fn spec_download_dir(self) -> Seq<char> {
        self.download_dir@
    }

    /// Where mods are installed.
    pub closed spec fn spec_install_dir(self) -> Seq<char> {
        self.install_dir@
    }

    /// The standard directories the configuration was made with.
    pub closed spec fn spec_dirs(self) -> SystemDirs {
        self.dirs
    }

    /// The configuration of `profile` (the default profile when none) with the
    /// given directories; relative ones are taken relative to the home directory.
    pub fn new(
        apikey: Option<String>,
        profile: Option<String>,
        download_dir: String,
        install_dir: String,
        dirs: SystemDirs,
    ) -> (r: Self)
        ensures
            r.spec_apikey() == apikey,
            r.spec_profile() == spec_profile_name(profile),
            r.spec_download_dir() == spec_absolutize(download_dir@, dirs.home_dir@),
            r.spec_install_dir() == spec_absolutize(install_dir@, dirs.home_dir@),
            r.spec_dirs() == dirs,
    {
        let download_dir = if crate::path::is_absolute(download_dir.as_str()) {
            download_dir
        } else {
            path_join(dirs.home_dir.as_str(), download_dir.as_str())
        };
        let install_dir = if crate::path::is_absolute(install_dir.as_str()) {
            install_dir
        } else {
            path_join(dirs.home_dir.as_str(), install_dir.as_str())
        };
        let profile = match profile {
            Some(p) => p,
            None => "default".to_owned(),
        };
        Config { apikey, profile, download_dir, install_dir, dirs }
    }

    /// The directory of the library's data.
    pub open spec fn spec_data_dir(self) -> Seq<char> {
        spec_push(self.spec_dirs().data_local_dir@, crate_dir_name())
    }

    /// The directory of the library's data.
    pub fn data_dir(&self) -> (r: String)
        ensures
            r@ == self.spec_data_dir(),
    {
        path_join(self.dirs.data_local_dir.as_str(), "dmodman")
    }

    /// The cache directory of the selected profile.
    pub fn cache_for_profile(&self) -> (r: String)
        ensures
            r@ == spec_push(
                spec_push(self.spec_dirs().cache_dir@, crate_dir_name()),
                self.spec_profile(),
            ),
    {
        let c = path_join(self.dirs.cache_dir.as_str(), "dmodman");
        path_join(c.as_str(), self.profile.as_str())
    }

    /// The metadata directory of the selected profile.
    pub open spec fn spec_metadata_for_profile(self) -> Seq<char> {
        spec_push(
            spec_push(spec_push(self.spec_data_dir(), "profiles"@), self.spec_profile()),
            "metadata"@,
        )
    }

    /// The metadata directory of the selected profile.
    pub fn metadata_for_profile(&self) -> (r: String)
        ensures
            r@ == self.spec_metadata_for_profile(),
    {
        let d = self.data_dir();
        let a = path_join(d.as_str(), "profiles");
        let b = path_join(a.as_str(), self.profile.as_str());
        path_join(b.as_str(), "metadata")
    }

    /// The metadata directory shared by all profiles.
    pub open spec fn spec_metadata_dir(self) -> Seq<char> {
        spec_push(self.spec_data_dir(), "metadata"@)
    }

    /// The metadata directory shared by all profiles.
    pub fn metadata_dir(&self) -> (r: String)
        ensures
            r@ == self.spec_metadata_dir(),
    {
        let d = self.data_dir();
        path_join(d.as_str(), "metadata")
    }

    /// Where downloads go.
    pub fn download_dir(&self) -> (r: String)
        ensures
            r@ == self.spec_download_dir(),
    {
        self.download_dir.clone()
    }

    /// Where mods are installed.
    pub fn install_dir(&self) -> (r: String)
        ensures
            r@ == self.spec_install_dir(),
    {
        self.install_dir.clone()
    }

    /// The selected profile's name.
    pub fn profile_name(&self) -> (r: String)
        ensures
            r@ == self.spec_profile(),
    {
        self.profile.clone()
    }
}

/// A selected profile's own directory wins: when the profile sets a download
/// directory, a builder that took the profile's settings builds with it (before
/// expansion), whatever the global one was.
pub proof fn lemma_profile_dir_wins(b: ConfigBuilder, dirs: SystemDirs, sel: String, p: Profile)
    requires
        b.profile == Some(sel),
        lookup_profile(b.profiles@, sel@) == Some(p),
        p.download_dir is Some,
        b.download_dir == p.download_dir,
    ensures
        spec_fallback_dirs(b, dirs).0 == opt_view(p.download_dir),
{
}

/// A selected profile that is not defined gets its own subdirectory of the
/// configured (or default) directories: its name is the last component.
pub proof fn lemma_unknown_profile_appends_name(b: ConfigBuilder, dirs: SystemDirs, sel: String)
    requires
        b.profile == Some(sel),
        lookup_profile(b.profiles@, sel@) is None,
        !spec_is_absolute(sel@),
    ensures
        ({
            let (dl, ins) = spec_fallback_dirs(b, dirs);
            &&& dl matches Some(d) && sel@.is_suffix_of(d)
            &&& ins matches Some(i) && (sel@.is_suffix_of(i) || b.install_dir is None)
        }),
{
    let (dl, ins) = spec_fallback_dirs(b, dirs);
    lemma_push_suffix(
        match opt_view(b.download_dir) {
            Some(d) => d,
            None => spec_default_download_dir(dirs),
        },
        sel@,
    );
    if let Some(i) = b.install_dir {
        lemma_push_suffix(i@, sel@);
    }
}

/// A relative path pushed onto a base ends with that path.
pub proof fn lemma_push_suffix(base: Seq<char>, p: Seq<char>)
    requires
        !spec_is_absolute(p),
    ensures
        p.is_suffix_of(spec_push(base, p)),
{
    let r = spec_push(base, p);
    if base.len() == 0 || base.last() == '/' {
        assert(r.subrange(r.len() - p.len(), r.len() as int) =~= p);
    } else {
        assert(r.subrange(r.len() - p.len(), r.len() as int) =~= p);
    }
}

/// A selected profile that sets no download directory, when the builder sets
/// none either, downloads into a directory of its own: the default download
/// directory with the profile's name appended, for a defined profile as well
/// as for one that is not defined.
pub proof fn lemma_profile_gets_own_download_dir(b: ConfigBuilder, dirs: SystemDirs, sel: String)
    requires
        b.profile == Some(sel),
        b.download_dir is None,
        match lookup_profile(b.profiles@, sel@) {
            Some(p) => p.download_dir is None,
            None => true,
        },
    ensures
        spec_fallback_dirs(b, dirs).0 == Some(spec_push(spec_default_download_dir(dirs), sel@)),
        !spec_is_absolute(sel@) ==> sel@.is_suffix_of(spec_fallback_dirs(b, dirs).0->0),
{
    if !spec_is_absolute(sel@) {
        lemma_push_suffix(spec_default_download_dir(dirs), sel@);
    }
}

} // verus!
