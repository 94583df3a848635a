use installer::command::{
    create_cli_command, install_mcp_server, install_plugin, marketplace_listed, mcp_add_command, remove_mcp_server,
    step_timeout, McpInstallConfig,
};
use installer::component::{determine_status, ComponentType, HookConfig, InstallStatus, Platform};
use installer::scanner::{scan_components, scan_directories, ScannedFile};
use installer::mcp::{McpScope, McpServer, McpServerDef, McpStatus, McpType};
use installer::plugin::{Plugin, PluginDef, PluginStatus};
use installer::runner::{
    append_capped, format_process_error, runner_step, RunOutcome, RunnerStep, WaitResult, MAX_STDERR_BYTES,
};
use installer::text::decimal_string;
use installer::theme::get_spinner;
use installer::types::TargetCli;

fn mcp(name: &str, command: Option<&str>, url: Option<&str>, http: bool) -> McpServer {
    McpServer::new(
        McpServerDef {
            name: name.to_string(),
            description: String::new(),
            server_type: if http { Some(McpType::Http) } else { None },
            command: command.map(|c| c.to_string()),
            url: url.map(|u| u.to_string()),
            category: "c".to_string(),
            env: vec![],
        },
        McpStatus::NotInstalled,
    )
}

#[test]
fn exit_observed_before_cancel_is_success() {
    let step = runner_step(false, WaitResult::Exited { success: true }, true);
    assert!(matches!(step, RunnerStep::Finished { success: true }));
}

#[test]
fn cancel_only_while_running() {
    assert!(matches!(runner_step(false, WaitResult::Running, true), RunnerStep::KillCancelled));
    assert!(matches!(runner_step(false, WaitResult::Running, false), RunnerStep::Continue));
    assert!(matches!(runner_step(true, WaitResult::Running, true), RunnerStep::KillTimedOut));
    assert!(matches!(
        runner_step(false, WaitResult::Failed("EINTR".to_string()), true),
        RunnerStep::KillWaitFailed(_)
    ));
}

#[test]
fn outcome_messages() {
    let t = RunOutcome::TimedOut { timeout_secs: 120, cleanup_attempted: true };
    assert_eq!(t.message(), "Installation timed out after 120s (cleanup may be incomplete)");
    assert_eq!(RunOutcome::Cancelled { cleanup_attempted: false }.message(), "Cancelled by user");
    assert_eq!(RunOutcome::SystemError("boom".into()).message(), "System error during wait: boom");
}

#[test]
fn process_error_trims_diagnostics() {
    assert_eq!(format_process_error("install plugin", "p", "  \n"), "Failed to install plugin p");
    assert_eq!(format_process_error("install plugin", "p", "  bad thing \n"), "Failed to install plugin p: bad thing");
}

#[test]
fn stderr_capture_is_capped() {
    let mut out = String::new();
    assert!(append_capped(&mut out, "line"));
    assert_eq!(out, "line\n");
    let big = "x".repeat(MAX_STDERR_BYTES);
    assert!(!append_capped(&mut out, &big));
    assert_eq!(out, "line\n\n[... output truncated]");
}

#[test]
fn mcp_add_command_line_for_primary_cli() {
    let server = mcp("ctx", Some("npx -y \"@scope/pkg name\""), None, false);
    let config = McpInstallConfig {
        scope: McpScope::Local,
        project_path: Some("/proj".to_string()),
        env_values: vec![("KEY".to_string(), "v a l".to_string())],
        target_cli: TargetCli::Claude,
        timeout_secs: 120,
    };
    let cmd = install_mcp_server(&server, &config, Platform::Linux).unwrap();
    assert_eq!(cmd.program, TargetCli::Claude.binary());
    assert_eq!(
        cmd.args,
        vec!["mcp", "add", "--scope", "local", "ctx", "-e", "KEY=v a l", "--", "npx", "-y", "@scope/pkg name"]
    );
    assert_eq!(cmd.current_dir.as_deref(), Some("/proj"));
}

#[test]
fn mcp_add_command_line_for_codex_http() {
    let server = mcp("remote", None, Some("https://x.dev/mcp"), true);
    let config = McpInstallConfig {
        scope: McpScope::User,
        project_path: None,
        env_values: vec![("T".to_string(), "1".to_string())],
        target_cli: TargetCli::Codex,
        timeout_secs: 120,
    };
    let cmd = install_mcp_server(&server, &config, Platform::Windows).unwrap();
    assert_eq!(cmd.program, "cmd");
    assert_eq!(cmd.args, vec!["/c", "codex", "mcp", "add", "--env", "T=1", "remote", "--url", "https://x.dev/mcp"]);
}

#[test]
fn unbalanced_quote_is_rejected() {
    let server = mcp("bad", Some("npx \"oops"), None, false);
    let config = McpInstallConfig {
        scope: McpScope::User,
        project_path: None,
        env_values: vec![],
        target_cli: TargetCli::Claude,
        timeout_secs: 120,
    };
    let err = install_mcp_server(&server, &config, Platform::Linux).unwrap_err();
    assert_eq!(err, "Invalid command syntax: npx \"oops");
}

#[test]
fn removal_and_plugin_commands() {
    let server = mcp("ctx", Some("npx ctx"), None, false);
    let cmd = remove_mcp_server(&server, TargetCli::Claude, Platform::MacOs);
    assert_eq!(cmd.args, vec!["mcp", "remove", "ctx"]);
    let plugin = Plugin::new(
        PluginDef {
            name: "lsp".into(),
            marketplace: "market".into(),
            source: "https://github.com/o/market.git".into(),
            comment: None,
        },
        PluginStatus::NotInstalled,
    );
    let cmd = install_plugin(&plugin, Platform::Linux);
    assert_eq!(cmd.args, vec!["plugin", "install", "lsp@market"]);
    assert!(marketplace_listed("Configured:\n  market (github)\n", "market"));
    assert!(!marketplace_listed("none", "market"));
    let c = create_cli_command(TargetCli::Codex, Platform::Linux);
    assert_eq!(c.program, "codex");
    assert!(c.args.is_empty());
}

#[test]
fn timeouts_are_shorter_for_removal() {
    assert_eq!(step_timeout(true, false), 120);
    assert_eq!(step_timeout(false, false), 60);
    assert_eq!(step_timeout(true, true), 30);
}

#[test]
fn status_comparison_order() {
    assert_eq!(determine_status(false, false, false), InstallStatus::New);
    assert_eq!(determine_status(true, false, true), InstallStatus::Modified);
    assert_eq!(determine_status(true, true, true), InstallStatus::Unchanged);
    assert_eq!(determine_status(true, true, false), InstallStatus::Modified);
}

#[test]
fn hook_binary_names() {
    let h = HookConfig {
        name: "guard".into(),
        event: "PreToolUse".into(),
        hook_type: "command".into(),
        timeout: None,
        description: None,
    };
    assert_eq!(h.binary_name(Platform::Windows), "guard.exe");
    assert_eq!(h.binary_name(Platform::MacOs), "guard_macos");
    assert_eq!(
        h.hook_command_path("/home/u/.cfg", Platform::Linux),
        format!("~/{}/hooks/guard_linux", TargetCli::Claude.config_dir_name())
    );
    assert_eq!(h.hook_command_path("C:\\u\\.cfg", Platform::Windows), "C:\\u\\.cfg\\hooks\\guard.exe");
}

#[test]
fn decimal_and_spinner() {
    assert_eq!(decimal_string(0), "0");
    assert_eq!(decimal_string(1234567890), "1234567890");
    assert_eq!(get_spinner(0), "\u{280b}");
    assert_eq!(get_spinner(13), get_spinner(3));
}

#[test]
fn cli_names() {
    assert_eq!(TargetCli::Codex.binary(), "codex");
    assert_eq!(TargetCli::Codex.config_dir_name(), ".codex");
    assert_eq!(TargetCli::Codex.display_name(), "Codex CLI");
    let primary = TargetCli::Claude.binary();
    assert_eq!(primary.len(), 6);
    assert!(primary.starts_with('c'));
    assert_eq!(TargetCli::Claude.config_dir_name(), format!(".{}", primary));
    assert_eq!(TargetCli::Claude.display_name().to_lowercase(), format!("{} code", primary));
}

#[test]
fn mcp_add_from_given_words() {
    let server = mcp("w", Some("ignored"), None, false);
    let config = McpInstallConfig {
        scope: McpScope::User,
        project_path: None,
        env_values: vec![],
        target_cli: TargetCli::Codex,
        timeout_secs: 120,
    };
    let cmd = mcp_add_command(&server, &config, Platform::Linux, vec!["uvx".to_string(), "a b".to_string()]);
    assert_eq!(cmd.args, vec!["mcp", "add", "w", "--", "uvx", "a b"]);
    assert_eq!(cmd.current_dir, None);
}

#[test]
fn path_helpers() {
    assert_eq!(installer::component::file_name_of("a/b\\c.sh"), "c.sh");
    assert_eq!(installer::component::file_name_of("plain"), "plain");
    assert_eq!(installer::component::file_name_of("dir/"), "");
    assert!(installer::component::is_translation("guide-ko.md"));
    assert!(!installer::component::is_translation("guide.md"));
    assert_eq!(installer::app::strip_md("calm.md"), "calm");
    assert_eq!(installer::app::strip_md("calm.txt"), "calm.txt");
    assert_eq!(
        installer::component::statusline_command("C:\\u", "s.exe", Platform::Windows),
        "C:\\u\\statusline\\s.exe"
    );
    assert_eq!(
        installer::component::statusline_command("/h", "s", Platform::Linux),
        format!("~/{}/statusline/s", TargetCli::Claude.config_dir_name())
    );
}

fn scanned(kind: ComponentType, name: &str, exists: bool, same: bool) -> ScannedFile {
    ScannedFile {
        kind,
        name: name.to_string(),
        file_name: name.rsplit('/').next().unwrap().to_string(),
        source_path: format!("s/{}", name),
        dest_path: format!("d/{}", name),
        dest_exists: exists,
        same_size: same,
        same_bytes: same,
        hook_config: None,
    }
}

#[test]
fn scan_keeps_order_and_marks_settings_managed() {
    let files = vec![
        scanned(ComponentType::Agents, "a.md", false, false),
        scanned(ComponentType::Agents, "a-ko.md", false, false),
        scanned(ComponentType::Rules, "x/r.md", true, true),
        scanned(ComponentType::ConfigFile, "settings.json", true, false),
        scanned(ComponentType::ConfigFile, "notes-ko.md", true, false),
    ];
    let out = scan_components(&files);
    let names: Vec<&str> = out.iter().map(|c| c.name.as_str()).collect();
    assert_eq!(names, vec!["a.md", "x/r.md", "settings.json", "notes-ko.md"]);
    assert_eq!(out[0].status, InstallStatus::New);
    assert!(out[0].selected);
    assert_eq!(out[1].status, InstallStatus::Unchanged);
    assert!(!out[1].selected);
    assert_eq!(out[2].status, InstallStatus::Managed);
    assert_eq!(out[3].status, InstallStatus::Modified);
    assert_eq!(scan_directories(TargetCli::Codex), vec![(ComponentType::Skills, "skills")]);
    assert_eq!(scan_directories(TargetCli::Claude).len(), 6);
}
