use installer::hooklog::{log_end, log_error, log_start};
use installer::installed::{codex_mcp_line, enabled_plugin_name, installed_mcp_names, primary_mcp_line};
use installer::types::TargetCli;

fn lines(v: &[&str]) -> Vec<String> {
    v.iter().map(|s| s.to_string()).collect()
}

#[test]
fn primary_list_skips_notice_and_reads_names() {
    let out = lines(&[
        "Checking MCP server health...",
        "",
        "context7: npx -y @upstash/context7-mcp - Connected",
        "  sentry : https://mcp.sentry.dev/mcp (HTTP) - Failed",
        "no colon here",
    ]);
    assert_eq!(installed_mcp_names(&out, TargetCli::Claude), vec!["context7", "sentry"]);
}

#[test]
fn codex_table_skips_header() {
    let out = lines(&["Name     Command   Args", "context7  npx  -y", "", "  remote\thttps://x"]);
    assert_eq!(installed_mcp_names(&out, TargetCli::Codex), vec!["context7", "remote"]);
}

#[test]
fn single_line_parsers() {
    assert_eq!(primary_mcp_line(" a: b "), Some("a".to_string()));
    assert_eq!(primary_mcp_line(": b"), None);
    assert_eq!(codex_mcp_line("Name Url"), None);
    assert_eq!(codex_mcp_line("Name"), None);
    assert_eq!(codex_mcp_line("Namely x"), Some("Namely".to_string()));
}

#[test]
fn plugin_key_name() {
    assert_eq!(enabled_plugin_name("document-skills@agent-skills"), "document-skills");
    assert_eq!(enabled_plugin_name("bare"), "bare");
}

#[test]
fn hook_log_lines() {
    assert_eq!(log_start("session-start"), "[session-start] Started");
    assert_eq!(log_end("session-end"), "[session-end] Completed");
    assert_eq!(log_error("pre-compact", "disk full"), "[pre-compact] ERROR: disk full");
}

#[test]
fn space_matches_std() {
    for c in ['\t', '\n', '\u{b}', ' ', '\u{85}', '\u{a0}', '\u{1680}', '\u{2005}', '\u{2028}', '\u{3000}', 'a', '_', '\u{200b}', '\u{feff}'] {
        assert_eq!(installer::installed::is_space(c), c.is_whitespace());
    }
}
