use installer::plugin::{extract_marketplace_name, Plugin, PluginDef, PluginStatus};

fn plugin_with_source(source: &str) -> Plugin {
    Plugin::new(
        PluginDef {
            name: "test".to_string(),
            marketplace: "official-plugins".to_string(),
            source: source.to_string(),
            comment: None,
        },
        PluginStatus::NotInstalled,
    )
}

#[test]
fn test_plugin_short_repo() {
    let plugin = plugin_with_source("https://github.com/owner/official-plugins.git");
    assert_eq!(plugin.short_repo(), "owner/official-plugins");
}

#[test]
fn short_repo_keeps_non_github_source() {
    let plugin = plugin_with_source("https://gitlab.com/team/repo.git");
    assert_eq!(plugin.short_repo(), "https://gitlab.com/team/repo");
}

#[test]
fn short_repo_strips_repeated_git_suffix() {
    let plugin = plugin_with_source("https://github.com/a/b.git.git");
    assert_eq!(plugin.short_repo(), "a/b");
}

#[test]
fn marketplace_name_is_last_segment() {
    assert_eq!(
        extract_marketplace_name("https://github.com/owner/official-plugins.git"),
        "official-plugins"
    );
    assert_eq!(extract_marketplace_name("plain"), "plain");
}

#[test]
fn new_plugin_is_not_selected() {
    let p = plugin_with_source("https://github.com/a/b");
    assert!(!p.selected);
    assert_eq!(p.status.display(), "not installed");
}
