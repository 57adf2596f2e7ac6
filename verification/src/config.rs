//! The tool's configuration: its defaults, where it is stored, and how the
//! config command and first-run setup change it.

use vstd::prelude::*;
use vstd::string::*;
use crate::registry::{clone_opt, opt_view, opt_str_view};

verus! {

/// Configuration of the tool.
pub struct Config {
    /// Default repository path for context management.
    pub repo_path: String,
    /// Whether this is the first run.
    pub first_run: bool,
    /// User name for commits.
    pub user_name: Option<String>,
    /// User email for commits.
    pub user_email: Option<String>,
    /// Language setting (zh/en).
    pub user_language: Option<String>,
}

/// The content of a `Config`.
pub struct ConfigView {
    pub repo_path: Seq<char>,
    pub first_run: bool,
    pub user_name: Option<Seq<char>>,
    pub user_email: Option<Seq<char>>,
    pub user_language: Option<Seq<char>>,
}

impl View for Config {
    type V = ConfigView;

    open spec fn view(&self) -> ConfigView {
        ConfigView {
            repo_path: self.repo_path@,
            first_run: self.first_run,
            user_name: opt_view(self.user_name),
            user_email: opt_view(self.user_email),
            user_language: opt_view(self.user_language),
        }
    }
}

/// The configuration before anything is set.
pub open spec fn default_config() -> ConfigView {
    ConfigView {
        repo_path: "."@,
        first_run: true,
        user_name: None,
        user_email: None,
        user_language: Some("zh"@),
    }
}

/// The language a configuration without one gets.
pub fn default_language() -> (r: Option<String>)
    ensures
        opt_view(r) == Some("zh"@),
{
    Some("zh".to_owned())
}

impl Default for Config {
    fn default() -> (c: Self)
        ensures
            c@ == default_config(),
    {
        Config {
            repo_path: ".".to_owned(),
            first_run: true,
            user_name: None,
            user_email: None,
            user_language: Some("zh".to_owned()),
        }
    }
}

impl Clone for Config {
    fn clone(&self) -> (c: Self)
        ensures
            c@ == self@,
    {
        Config {
            repo_path: self.repo_path.clone(),
            first_run: self.first_run,
            user_name: clone_opt(&self.user_name),
            user_email: clone_opt(&self.user_email),
            user_language: clone_opt(&self.user_language),
        }
    }
}

/// Why the configuration cannot be located.
#[derive(Clone, Copy, PartialEq, Eq, Debug)]
pub enum ConfigError {
    /// The home directory is unknown.
    NoHomeDirectory,
}

/// `base` joined with the relative component `comp`, as `Path::join` does on Unix.
pub open spec fn path_join(base: Seq<char>, comp: Seq<char>) -> Seq<char> {
    if base.len() == 0 {
        comp
    } else if base.last() == '/' {
        base + comp
    } else {
        base + "/"@ + comp
    }
}

/// Computes `path_join`.
pub fn path_join_text(base: &str, comp: &str) -> (s: String)
    ensures
        s@ == path_join(base@, comp@),
{
    let b = crate::text::chars_of(base);
    let mut s = String::new();
    s.append(base);
    if b.len() > 0 && b[b.len() - 1] != '/' {
        s.append("/");
    }
    s.append(comp);
    s
}

/// The configuration directory under a home directory.
pub open spec fn config_dir_of(home: Seq<char>) -> Seq<char> {
    path_join(path_join(home, ".config"@), "wctx"@)
}

/// The configuration file under a home directory.
pub open spec fn config_path_of(home: Seq<char>) -> Seq<char> {
    path_join(config_dir_of(home), "config.toml"@)
}

/// Calls `dirs::home_dir()` and converts the path with `to_string_lossy`. The
/// result comes from the environment; nothing about it is stated.
#[verifier::external_body]
fn home_dir_text() -> Option<String> {
    dirs::home_dir().map(|p| p.to_string_lossy().into_owned())
}

/// The configuration directory for a home directory, if one is known.
pub fn config_dir_from_home(home: Option<&str>) -> (r: Result<String, ConfigError>)
    ensures
        match r {
            Ok(d) => home matches Some(h) && d@ == config_dir_of(h@),
            Err(e) => home is None && e == ConfigError::NoHomeDirectory,
        },
{
    match home {
        Some(h) => {
            let c = path_join_text(h, ".config");
            Ok(path_join_text(c.as_str(), "wctx"))
        },
        None => Err(ConfigError::NoHomeDirectory),
    }
}

/// The configuration file for a home directory, if one is known.
pub fn config_path_from_home(home: Option<&str>) -> (r: Result<String, ConfigError>)
    ensures
        match r {
            Ok(p) => home matches Some(h) && p@ == config_path_of(h@),
            Err(e) => home is None && e == ConfigError::NoHomeDirectory,
        },
{
    match config_dir_from_home(home) {
        Ok(d) => Ok(path_join_text(d.as_str(), "config.toml")),
        Err(e) => Err(e),
    }
}

impl Config {
    /// The configuration directory, `.config/wctx` under the home directory.
    pub fn config_dir() -> (r: Result<String, ConfigError>)
        ensures
            match r {
                Ok(d) => exists|h: Seq<char>| d@ == config_dir_of(h),
                Err(e) => e == ConfigError::NoHomeDirectory,
            },
    {
        let home = home_dir_text();
        match home {
            Some(h) => config_dir_from_home(Some(h.as_str())),
            None => config_dir_from_home(None),
        }
    }

    /// The configuration file, `config.toml` in the configuration directory.
    pub fn config_path() -> (r: Result<String, ConfigError>)
        ensures
            match r {
                Ok(p) => exists|h: Seq<char>| p@ == config_path_of(h),
                Err(e) => e == ConfigError::NoHomeDirectory,
            },
    {
        let home = home_dir_text();
        match home {
            Some(h) => config_path_from_home(Some(h.as_str())),
            None => config_path_from_home(None),
        }
    }

    /// Whether this is the first run.
    pub fn is_first_run(&self) -> (b: bool)
        ensures
            b == self.first_run,
    {
        self.first_run
    }

    /// Marks the first run as complete.
    pub fn mark_initialized(&mut self)
        ensures
            final(self)@ == (ConfigView { first_run: false, ..old(self)@ }),
    {
        self.first_run = false;
    }

    /// Sets the repository path.
    pub fn set_repo_path(&mut self, path: String)
        ensures
            final(self)@ == (ConfigView { repo_path: path@, ..old(self)@ }),
    {
        self.repo_path = path;
    }

    /// The repository path.
    pub fn get_repo_path(&self) -> (p: &str)
        ensures
            p@ == self.repo_path@,
    {
        self.repo_path.as_str()
    }
}

/// The configuration after the config command's settings: each given setting
/// replaces the stored one.
pub open spec fn configured(
    c: ConfigView,
    repo: Option<Seq<char>>,
    name: Option<Seq<char>>,
    email: Option<Seq<char>>,
    lang: Option<Seq<char>>,
) -> ConfigView {
    ConfigView {
        repo_path: match repo {
            Some(r) => r,
            None => c.repo_path,
        },
        first_run: c.first_run,
        user_name: if name is Some {
            name
        } else {
            c.user_name
        },
        user_email: if email is Some {
            email
        } else {
            c.user_email
        },
        user_language: if lang is Some {
            lang
        } else {
            c.user_language
        },
    }
}

/// The config command with no setting leaves the configuration as it is.
pub proof fn no_setting_keeps_config(c: ConfigView)
    ensures
        configured(c, None, None, None, None) == c,
{
}

/// Giving the same settings twice changes nothing the second time.
pub proof fn settings_are_idempotent(
    c: ConfigView,
    repo: Option<Seq<char>>,
    name: Option<Seq<char>>,
    email: Option<Seq<char>>,
    lang: Option<Seq<char>>,
)
    ensures
        configured(configured(c, repo, name, email, lang), repo, name, email, lang) == configured(
            c,
            repo,
            name,
            email,
            lang,
        ),
{
}

/// Each given setting is read back as given, and the first-run flag is never
/// touched by the config command.
pub proof fn settings_read_back(
    c: ConfigView,
    repo: Option<Seq<char>>,
    name: Option<Seq<char>>,
    email: Option<Seq<char>>,
    lang: Option<Seq<char>>,
)
    ensures
        repo matches Some(r) ==> configured(c, repo, name, email, lang).repo_path == r,
        name is Some ==> configured(c, repo, name, email, lang).user_name == name,
        email is Some ==> configured(c, repo, name, email, lang).user_email == email,
        lang is Some ==> configured(c, repo, name, email, lang).user_language == lang,
        configured(c, repo, name, email, lang).first_run == c.first_run,
{
}

/// Applies the config command's settings; tells whether any was given.
pub fn apply_config_changes(
    config: &mut Config,
    repo: Option<String>,
    name: Option<String>,
    email: Option<String>,
    lang: Option<String>,
) -> (updated: bool)
    ensures
        final(config)@ == configured(
            old(config)@,
            opt_view(repo),
            opt_view(name),
            opt_view(email),
            opt_view(lang),
        ),
        updated == (repo is Some || name is Some || email is Some || lang is Some),
{
    let mut updated = false;
    if let Some(r) = repo {
        config.set_repo_path(r);
        updated = true;
    }
    if name.is_some() {
        config.user_name = name;
        updated = true;
    }
    if email.is_some() {
        config.user_email = email;
        updated = true;
    }
    if lang.is_some() {
        config.user_language = lang;
        updated = true;
    }
    updated
}

/// The configuration the reset command stores: the defaults, on a first run.
pub fn reset_config() -> (c: Config)
    ensures
        c@ == default_config(),
{
    let mut c = Config::default();
    c.first_run = true;
    c
}

/// The repository path offered by default: `web-context` in the working
/// directory, or `./web-context` when that is unknown.
pub open spec fn default_repo_path_of(cwd: Option<Seq<char>>) -> Seq<char> {
    match cwd {
        Some(c) => path_join(c, "web-context"@),
        None => "./web-context"@,
    }
}

/// Computes `default_repo_path_of`.
pub fn default_repo_path(cwd: Option<&str>) -> (p: String)
    ensures
        p@ == default_repo_path_of(opt_str_view(cwd)),
{
    match cwd {
        Some(c) => path_join_text(c, "web-context"),
        None => "./web-context".to_owned(),
    }
}

/// The configuration used when there is no terminal to ask on: the default
/// repository path, the first run done, and the language set to `zh`.
pub fn apply_noninteractive_defaults(config: &mut Config, default_path: String)
    ensures
        final(config)@ == (ConfigView {
            repo_path: default_path@,
            first_run: false,
            user_language: Some("zh"@),
            ..old(config)@
        }),
{
    config.repo_path = default_path;
    config.first_run = false;
    config.user_language = Some("zh".to_owned());
}

/// The languages the setup offers, in order.
pub open spec fn language_options() -> Seq<Seq<char>> {
    seq!["zh"@, "en"@]
}

/// The language at position `idx` of the setup's choices.
pub fn language_choice(idx: usize) -> (s: String)
    requires
        idx < 2,
    ensures
        s@ == language_options()[idx as int],
{
    if idx == 0 {
        "zh".to_owned()
    } else {
        "en".to_owned()
    }
}

/// The configuration the first-run setup stores from the answers.
pub fn setup_config(repo_path: String, user_name: String, user_email: String, language: String) -> (c:
    Config)
    ensures
        c@ == (ConfigView {
            repo_path: repo_path@,
            first_run: false,
            user_name: Some(user_name@),
            user_email: Some(user_email@),
            user_language: Some(language@),
        }),
{
    Config {
        repo_path,
        first_run: false,
        user_name: Some(user_name),
        user_email: Some(user_email),
        user_language: Some(language),
    }
}

} // verus!
