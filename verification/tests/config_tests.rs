use coding_agent::config::{ConfigManager, Settings};

fn settings(mode: Option<&str>, model: Option<&str>, prompt: Option<&str>, tools: Option<&[&str]>) -> Settings {
    Settings {
        permission_mode: mode.map(|s| s.to_string()),
        model: model.map(|s| s.to_string()),
        custom_system_prompt: prompt.map(|s| s.to_string()),
        disabled_tools: tools.map(|t| t.iter().map(|s| s.to_string()).collect()),
    }
}

#[test]
fn later_settings_overwrite_what_they_set() {
    let mut s = settings(Some("plan"), Some("m1"), None, Some(&["Bash"]));
    s.merge(settings(None, Some("m2"), Some("p"), Some(&["Glob"])));
    assert_eq!(s.permission_mode.as_deref(), Some("plan"));
    assert_eq!(s.model.as_deref(), Some("m2"));
    assert_eq!(s.custom_system_prompt.as_deref(), Some("p"));
    assert_eq!(s.disabled_tools, Some(vec!["Glob".to_string()]));
}

#[test]
fn disabled_tools_stay_when_the_later_settings_leave_them_unset() {
    let mut s = settings(None, None, None, Some(&["Bash"]));
    s.merge(settings(None, Some("m"), None, None));
    assert_eq!(s.disabled_tools, Some(vec!["Bash".to_string()]));
}

#[test]
fn merging_nothing_changes_nothing() {
    let mut s = settings(Some("auto"), None, Some("p"), None);
    s.merge(Settings::default());
    assert_eq!(s.permission_mode.as_deref(), Some("auto"));
    assert_eq!(s.model, None);
    assert_eq!(s.custom_system_prompt.as_deref(), Some("p"));
    assert_eq!(s.disabled_tools, None);
}

#[test]
fn merge_is_associative_on_an_example() {
    let a = || settings(Some("a"), None, None, Some(&["x"]));
    let b = || settings(None, Some("b"), None, Some(&["y"]));
    let c = || settings(Some("c"), None, Some("c"), Some(&["z"]));
    let mut left = a();
    left.merge(b());
    left.merge(c());
    let mut bc = b();
    bc.merge(c());
    let mut right = a();
    right.merge(bc);
    assert_eq!(format!("{:?}", left), format!("{:?}", right));
}

#[test]
fn project_settings_win_in_the_cascade() {
    let s = Settings::cascade(
        Some(settings(Some("auto"), Some("global-model"), None, Some(&["Bash"]))),
        Some(settings(None, Some("project-model"), None, Some(&["Agent"]))),
        None,
    );
    assert_eq!(s.permission_mode.as_deref(), Some("auto"));
    assert_eq!(s.model.as_deref(), Some("project-model"));
    assert_eq!(s.disabled_tools, Some(vec!["Agent".to_string()]));
    let none = Settings::cascade(None, None, None);
    assert_eq!(none.model, None);
}

#[test]
fn local_settings_win_over_project_and_global() {
    let s = Settings::cascade(
        Some(settings(Some("auto"), Some("global-model"), Some("g"), None)),
        Some(settings(Some("plan"), Some("project-model"), None, None)),
        Some(settings(None, Some("local-model"), None, Some(&["Bash"]))),
    );
    assert_eq!(s.permission_mode.as_deref(), Some("plan"));
    assert_eq!(s.model.as_deref(), Some("local-model"));
    assert_eq!(s.custom_system_prompt.as_deref(), Some("g"));
    assert_eq!(s.disabled_tools, Some(vec!["Bash".to_string()]));
}

#[test]
fn defaults_fill_in_what_is_not_set() {
    let mut s = Settings::default();
    assert_eq!(s.effective_model("default-model"), "default-model");
    assert_eq!(s.effective_system_prompt("default prompt"), "default prompt");
    s.override_model(Some("cli-model".to_string()));
    assert_eq!(s.effective_model("default-model"), "cli-model");
    s.override_model(None);
    assert_eq!(s.model.as_deref(), Some("cli-model"));
}

#[test]
fn manager_loads_the_cascade() {
    let mut m = ConfigManager::new("/home/u/.config.json".to_string(), "/p/settings.json".to_string());
    assert_eq!(m.active_settings.model, None);
    m.load_cascading(None, Some(settings(None, Some("m"), None, None)), None);
    assert_eq!(m.active_settings.model.as_deref(), Some("m"));
    m.load_cascading(None, Some(settings(None, Some("m"), None, None)), Some(settings(None, Some("l"), None, None)));
    assert_eq!(m.active_settings.model.as_deref(), Some("l"));
}
