use webcontext::cli::{effective_repo_path, path_or_current};
use webcontext::config::{
    apply_config_changes, apply_noninteractive_defaults, config_dir_from_home, config_path_from_home, default_language,
    default_repo_path, language_choice, path_join_text, reset_config, setup_config, Config,
    ConfigError,
};

#[test]
fn config_defaults() {
    let c = Config::default();
    assert_eq!(c.repo_path, ".");
    assert!(c.first_run);
    assert!(c.is_first_run());
    assert_eq!(c.user_name, None);
    assert_eq!(c.user_email, None);
    assert_eq!(c.user_language.as_deref(), Some("zh"));
    assert_eq!(default_language().as_deref(), Some("zh"));
    let r = reset_config();
    assert!(r.first_run);
    assert_eq!(r.repo_path, ".");
}

#[test]
fn config_setters() {
    let mut c = Config::default();
    c.set_repo_path("/data/ctx".to_string());
    assert_eq!(c.get_repo_path(), "/data/ctx");
    c.mark_initialized();
    assert!(!c.is_first_run());
    let d = c.clone();
    assert_eq!(d.repo_path, "/data/ctx");
    assert!(!d.first_run);
}

#[test]
fn config_changes() {
    let mut c = Config::default();
    assert!(!apply_config_changes(&mut c, None, None, None, None));
    assert_eq!(c.repo_path, ".");
    assert!(apply_config_changes(
        &mut c,
        Some("/r".to_string()),
        None,
        Some("a@b.c".to_string()),
        Some("en".to_string())
    ));
    assert_eq!(c.repo_path, "/r");
    assert_eq!(c.user_name, None);
    assert_eq!(c.user_email.as_deref(), Some("a@b.c"));
    assert_eq!(c.user_language.as_deref(), Some("en"));
    assert!(c.first_run);
}

#[test]
fn config_locations() {
    assert_eq!(
        config_dir_from_home(Some("/home/u")).unwrap(),
        "/home/u/.config/wctx"
    );
    assert_eq!(config_dir_from_home(Some("/")).unwrap(), "/.config/wctx");
    assert_eq!(config_dir_from_home(None).err(), Some(ConfigError::NoHomeDirectory));
    assert_eq!(path_join_text("", "a"), "a");
    assert_eq!(path_join_text("x/", "a"), "x/a");
    assert_eq!(path_join_text("x", "a"), "x/a");
}

#[test]
fn config_dir_under_home() {
    if let Ok(d) = Config::config_dir() {
        assert!(d.ends_with(".config/wctx"));
        let p = Config::config_path().unwrap();
        assert_eq!(p, format!("{}/config.toml", d));
    }
}

#[test]
fn first_run_defaults() {
    assert_eq!(default_repo_path(Some("/work")), "/work/web-context");
    assert_eq!(default_repo_path(None), "./web-context");
    let mut c = Config::default();
    apply_noninteractive_defaults(&mut c, "/work/web-context".to_string());
    assert_eq!(c.repo_path, "/work/web-context");
    assert!(!c.first_run);
    assert_eq!(c.user_language.as_deref(), Some("zh"));
    assert_eq!(language_choice(0), "zh");
    assert_eq!(language_choice(1), "en");
    let s = setup_config("p".into(), "n".into(), "e".into(), "en".into());
    assert!(!s.first_run);
    assert_eq!(s.user_name.as_deref(), Some("n"));
    assert_eq!(s.user_email.as_deref(), Some("e"));
    assert_eq!(s.user_language.as_deref(), Some("en"));
}

#[test]
fn command_line_paths() {
    assert_eq!(effective_repo_path("/x", true), "/x");
    assert_eq!(effective_repo_path("/x", false), ".");
    assert_eq!(path_or_current(Some("p".to_string())), "p");
    assert_eq!(path_or_current(None), ".");
}

#[test]
fn config_without_settings_is_unchanged() {
    let mut c = Config::default();
    c.set_repo_path("/srv/ctx".to_string());
    c.mark_initialized();
    let before = c.clone();
    assert!(!apply_config_changes(&mut c, None, None, None, None));
    assert_eq!(c.repo_path, before.repo_path);
    assert_eq!(c.first_run, before.first_run);
    assert_eq!(c.user_name, before.user_name);
    assert_eq!(c.user_email, before.user_email);
    assert_eq!(c.user_language, before.user_language);
}

#[test]
fn config_same_settings_twice() {
    let mut c = Config::default();
    let settings = || {
        (
            Some("/r".to_string()),
            Some("Ann".to_string()),
            None,
            Some("en".to_string()),
        )
    };
    let (r, n, e, l) = settings();
    assert!(apply_config_changes(&mut c, r, n, e, l));
    let once = c.clone();
    let (r, n, e, l) = settings();
    assert!(apply_config_changes(&mut c, r, n, e, l));
    assert_eq!(c.repo_path, once.repo_path);
    assert_eq!(c.user_name, once.user_name);
    assert_eq!(c.user_email, once.user_email);
    assert_eq!(c.user_language, once.user_language);
    assert_eq!(c.user_name.as_deref(), Some("Ann"));
    assert!(c.first_run);
}

#[test]
fn config_path_under_home() {
    assert_eq!(
        config_path_from_home(Some("/home/u")).unwrap(),
        "/home/u/.config/wctx/config.toml"
    );
    assert_eq!(config_path_from_home(None), Err(ConfigError::NoHomeDirectory));
}
