use installer::mcp::McpServerDef;
use installer::validation::{
    is_https_url, is_safe_command, is_safe_identifier, validate_mcp_server, validate_plugin,
};

fn server(name: &str, command: Option<&str>, url: Option<&str>, category: &str) -> McpServerDef {
    McpServerDef {
        name: name.to_string(),
        description: "Test".to_string(),
        server_type: None,
        command: command.map(|c| c.to_string()),
        url: url.map(|u| u.to_string()),
        category: category.to_string(),
        env: vec![],
    }
}

#[test]
fn test_is_safe_identifier_valid() {
    assert!(is_safe_identifier("context7"));
    assert!(is_safe_identifier("cloudflare-docs"));
    assert!(is_safe_identifier("my_server_123"));
    assert!(is_safe_identifier("a"));
}

#[test]
fn test_is_safe_identifier_invalid() {
    assert!(!is_safe_identifier(""));
    assert!(!is_safe_identifier("-starts-with-dash"));
    assert!(!is_safe_identifier("has spaces"));
    assert!(!is_safe_identifier("has;semicolon"));
    assert!(!is_safe_identifier("has&amp"));
    assert!(!is_safe_identifier(&"a".repeat(101)));
}

#[test]
fn test_is_https_url_valid() {
    assert!(is_https_url("https://example.com"));
    assert!(is_https_url("https://mcp.sentry.dev/mcp"));
    assert!(is_https_url("https://github.com/repo.git"));
}

#[test]
fn test_is_https_url_invalid() {
    assert!(!is_https_url("http://example.com"));
    assert!(!is_https_url("file:///etc/passwd"));
    assert!(!is_https_url("javascript:alert(1)"));
    assert!(!is_https_url("https://"));
    assert!(!is_https_url(""));
}

#[test]
fn test_is_safe_command_valid() {
    assert!(is_safe_command("npx -y @upstash/context7-mcp"));
    assert!(is_safe_command("uvx mcp-atlassian"));
    assert!(is_safe_command("npx -y @supabase/mcp-server-supabase@latest --project-ref=YOUR_PROJECT_REF"));
}

#[test]
fn test_is_safe_command_invalid() {
    assert!(!is_safe_command(""));
    assert!(!is_safe_command("cmd & echo hacked"));
    assert!(!is_safe_command("cmd | cat /etc/passwd"));
    assert!(!is_safe_command("cmd; rm -rf /"));
    assert!(!is_safe_command("cmd > /tmp/out"));
    assert!(!is_safe_command("cmd < /etc/passwd"));
    assert!(!is_safe_command("echo `whoami`"));
    assert!(!is_safe_command("echo $(whoami)"));
}

#[test]
fn test_validate_mcp_server_valid() {
    let def = server("context7", Some("npx -y @upstash/context7-mcp"), None, "docs");
    assert!(validate_mcp_server(&def).is_none());
}

#[test]
fn test_validate_mcp_server_bad_name() {
    let def = server("bad;name", Some("npx test"), None, "test");
    assert!(validate_mcp_server(&def).is_some());
}

#[test]
fn test_validate_mcp_server_bad_url() {
    let def = server("test", None, Some("file:///etc/passwd"), "test");
    assert!(validate_mcp_server(&def).is_some());
}

#[test]
fn test_validate_mcp_server_bad_command() {
    let def = server("test", Some("npx test & echo hacked"), None, "test");
    assert!(validate_mcp_server(&def).is_some());
}

#[test]
fn test_validate_plugin_valid() {
    assert!(validate_plugin("rust-analyzer-lsp", "official-plugins", "https://github.com/repo.git").is_none());
}

#[test]
fn test_validate_plugin_bad_name() {
    assert!(validate_plugin("bad;name", "marketplace", "https://example.com").is_some());
}

#[test]
fn test_validate_plugin_bad_source() {
    assert!(validate_plugin("good-name", "marketplace", "http://insecure.com").is_some());
}

#[test]
fn semicolon_command_is_rejected_with_reason() {
    let def = server("evil", Some("npx x; rm -rf /"), None, "test");
    assert_eq!(
        validate_mcp_server(&def),
        Some("MCP server 'evil': command contains disallowed shell metacharacters".to_string())
    );
}

#[test]
fn bad_url_message_names_the_url() {
    let def = server("test", None, Some("http://x.dev"), "test");
    assert_eq!(
        validate_mcp_server(&def),
        Some("MCP server 'test': url must use https:// scheme, got 'http://x.dev'".to_string())
    );
}

#[test]
fn bad_marketplace_message() {
    assert_eq!(
        validate_plugin("ok", "bad market", "https://x.dev"),
        Some("Plugin 'ok': marketplace 'bad market' must be alphanumeric/underscore/hyphen".to_string())
    );
}

#[test]
fn identifier_length_edges() {
    assert!(is_safe_identifier(&"a".repeat(100)));
    assert!(!is_safe_identifier("caf\u{e9}"));
    assert!(is_safe_identifier("trailing-"));
}
