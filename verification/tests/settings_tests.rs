use lareview::settings::{
    agent_card, agent_settings_dirty, cli_badge, custom_agent_addable, cli_installed_label, cli_panel, d2_badge, github_badge,
    AgentSettingsSnapshot, Badge, CliPanel,
};
use lareview::generation::AgentCandidate;
use lareview::visuals::{Icon, ThemeColor};

fn envs(pairs: &[(&str, &str)]) -> Vec<(String, String)> {
    pairs.iter().map(|(k, v)| (k.to_string(), v.to_string())).collect()
}

fn snapshot(agent: &str, path: Option<&str>, e: Option<&[(&str, &str)]>) -> Option<AgentSettingsSnapshot> {
    Some(AgentSettingsSnapshot {
        agent_id: agent.to_string(),
        path_override: path.map(|p| p.to_string()),
        envs: e.map(envs),
    })
}

fn parts(b: Badge) -> (Option<Icon>, &'static str, ThemeColor) {
    (b.icon, b.label, b.color)
}

#[test]
fn settings_not_dirty_without_snapshot_or_for_another_agent() {
    assert!(!agent_settings_dirty(&None, "alpha", &Some("/bin/x".to_string()), &None));
    let snap = snapshot("beta", None, None);
    assert!(!agent_settings_dirty(&snap, "alpha", &Some("/bin/x".to_string()), &None));
}

#[test]
fn settings_dirty_when_path_changes() {
    let snap = snapshot("alpha", Some("/usr/bin/alpha"), None);
    assert!(!agent_settings_dirty(&snap, "alpha", &Some("/usr/bin/alpha".to_string()), &None));
    assert!(agent_settings_dirty(&snap, "alpha", &Some("/opt/alpha".to_string()), &None));
    assert!(agent_settings_dirty(&snap, "alpha", &None, &None));
}

#[test]
fn empty_path_and_empty_envs_count_as_none() {
    let snap = snapshot("alpha", None, None);
    assert!(!agent_settings_dirty(&snap, "alpha", &Some(String::new()), &Some(Vec::new())));
    // A snapshot that held an empty path is not the same as no path.
    let snap = snapshot("alpha", Some(""), None);
    assert!(agent_settings_dirty(&snap, "alpha", &Some(String::new()), &None));
}

#[test]
fn envs_compare_as_maps() {
    let snap = snapshot("alpha", None, Some(&[("A", "1"), ("B", "2")]));
    assert!(!agent_settings_dirty(&snap, "alpha", &None, &Some(envs(&[("B", "2"), ("A", "1")]))));
    assert!(agent_settings_dirty(&snap, "alpha", &None, &Some(envs(&[("A", "1"), ("B", "3")]))));
    assert!(agent_settings_dirty(&snap, "alpha", &None, &Some(envs(&[("A", "1")]))));
    assert!(agent_settings_dirty(&snap, "alpha", &None, &Some(envs(&[("A", "1"), ("C", "2")]))));
    assert!(agent_settings_dirty(&snap, "alpha", &None, &None));
}

#[test]
fn cli_section_states() {
    assert_eq!(parts(cli_badge(true, true)), (None, "Installing...", ThemeColor::Warning));
    assert_eq!(parts(cli_badge(false, true)), (Some(Icon::Check), "Available", ThemeColor::Success));
    assert_eq!(
        parts(cli_badge(false, false)),
        (Some(Icon::StatusIgnored), "Not on PATH", ThemeColor::Warning)
    );
    assert_eq!(cli_installed_label(true), ("Installed", ThemeColor::Success));
    assert_eq!(cli_installed_label(false), ("Not installed", ThemeColor::Warning));
    assert_eq!(cli_panel(true, true), CliPanel::Ready);
    assert_eq!(cli_panel(true, false), CliPanel::Configuring);
    assert_eq!(cli_panel(false, false), CliPanel::AddToPath);
}

#[test]
fn d2_and_github_badges() {
    assert_eq!(parts(d2_badge(true, false)), (None, "Installing...", ThemeColor::Warning));
    assert_eq!(parts(d2_badge(false, true)), (Some(Icon::Check), "Installed", ThemeColor::Success));
    assert_eq!(parts(d2_badge(false, false)), (None, "Not Installed", ThemeColor::TextDisabled));
    assert_eq!(parts(github_badge(true, true, false)), (None, "Checking...", ThemeColor::Warning));
    assert_eq!(parts(github_badge(false, true, false)), (Some(Icon::Check), "Ready", ThemeColor::Success));
    assert_eq!(
        parts(github_badge(false, true, true)),
        (Some(Icon::StatusIgnored), "Error/Unknown", ThemeColor::Destructive)
    );
    assert_eq!(
        parts(github_badge(false, false, false)),
        (Some(Icon::StatusIgnored), "Error/Unknown", ThemeColor::Destructive)
    );
}

#[test]
fn custom_agent_needs_id_name_and_command() {
    assert!(custom_agent_addable("my-agent", "My Agent", "my-agent --acp"));
    assert!(!custom_agent_addable("", "My Agent", "cmd"));
    assert!(!custom_agent_addable("id", "", "cmd"));
    assert!(!custom_agent_addable("id", "Name", ""));
}

#[test]
fn agent_cards() {
    let custom = AgentCandidate {
        id: "mine".to_string(),
        label: "Mine".to_string(),
        command: None,
        args: Vec::new(),
        available: false,
    };
    let card = agent_card(&custom, &vec!["other".to_string(), "mine".to_string()]);
    assert!(card.deletable);
    assert_eq!((card.status_icon, card.status_color), (Icon::StatusIgnored, ThemeColor::Destructive));
    assert_eq!(card.command, "Not found");
    let builtin = AgentCandidate {
        id: "builtin".to_string(),
        label: "Builtin".to_string(),
        command: Some("/usr/bin/builtin".to_string()),
        args: Vec::new(),
        available: true,
    };
    let card = agent_card(&builtin, &vec!["mine".to_string()]);
    assert!(!card.deletable);
    assert_eq!((card.status_icon, card.status_color), (Icon::StatusDone, ThemeColor::Success));
    assert_eq!(card.command, "/usr/bin/builtin");
}
