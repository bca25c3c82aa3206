use git_branch_manager::config::{config_text, Config};

#[test]
fn config_defaults() {
    let c = Config::default();
    assert_eq!(c.symbols, None);
    assert_eq!(c.theme, None);
    assert_eq!(c.auto_fetch, None);
    assert_eq!(c.include_remotes, None);
}

#[test]
fn config_text_prefers_current_then_legacy() {
    assert_eq!(config_text(Ok("a = 1".into()), Ok("b = 2".into())), Some("a = 1".to_string()));
    assert_eq!(config_text(Err("missing".into()), Ok("b = 2".into())), Some("b = 2".to_string()));
    assert_eq!(config_text(Err("missing".into()), Err("missing".into())), None);
    assert_eq!(config_text(Ok(String::new()), Ok("b = 2".into())), None);
}
