use installer::app::{App, DispatchStep, StepReport, WorkItem};
use installer::component::{Component, ComponentType, InstallStatus};
use installer::mcp::{McpScope, McpServer, McpServerDef, McpStatus};
use installer::runner::RunOutcome;
use installer::theme::{Theme, ThemeMode};
use installer::types::{Screen, Tab, TargetCli};
use installer::validation::validate_mcp_server;
use installer::scanner::{catalog_plugins, catalog_servers};

fn comp(t: ComponentType, name: &str, status: InstallStatus) -> Component {
    Component::new(t, name.to_string(), format!("src/{}", name), format!("dst/{}", name), status)
}

fn server(name: &str, command: &str, env: Vec<&str>) -> McpServerDef {
    McpServerDef {
        name: name.to_string(),
        description: "d".to_string(),
        server_type: None,
        command: Some(command.to_string()),
        url: None,
        category: "c".to_string(),
        env: env.into_iter().map(|e| e.to_string()).collect(),
    }
}

fn loaded_app(components: Vec<Component>, servers: Vec<McpServer>) -> App {
    let mut app = App::new(
        "src".to_string(),
        "home/.cfg".to_string(),
        "/work".to_string(),
        Theme::from_mode(ThemeMode::Mocha),
    );
    app.select_cli(TargetCli::Claude, "home/.cfg".to_string());
    assert_eq!(app.current_view, Screen::Loading);
    app.finish_loading(components, servers, vec![], None, None);
    app
}

#[test]
fn loading_selects_first_tab_and_reports() {
    let app = loaded_app(vec![], vec![]);
    assert_eq!(app.current_view, Screen::List);
    assert_eq!(app.tab, Tab::Agents);
    assert_eq!(app.status_message, Some(format!("Selected {}", TargetCli::Claude.display_name())));
    assert!(app.status_message.as_deref().unwrap().ends_with(" Code"));
    assert_eq!(app.available_tabs.len(), 11);
}

#[test]
fn codex_offers_three_tabs() {
    let mut app = App::new("s".into(), "d".into(), "p".into(), Theme::from_mode(ThemeMode::Latte));
    app.select_cli(TargetCli::Codex, "d".into());
    assert_eq!(app.available_tabs, vec![Tab::Skills, Tab::Config, Tab::McpServers]);
    assert_eq!(app.tab, Tab::Skills);
    app.prev_tab();
    assert_eq!(app.tab, Tab::McpServers);
    app.next_tab();
    assert_eq!(app.tab, Tab::Skills);
}

#[test]
fn folder_toggle_selects_all_then_none() {
    let comps = vec![
        comp(ComponentType::Agents, "grp/a.md", InstallStatus::Unchanged),
        comp(ComponentType::Agents, "grp/b.md", InstallStatus::Unchanged),
        comp(ComponentType::Agents, "grp/sub/c.md", InstallStatus::Unchanged),
    ];
    let mut app = loaded_app(comps, vec![]);
    assert!(app.is_cursor_on_folder());
    assert!(app.components.iter().all(|c| !c.selected));
    app.toggle_selected();
    assert!(app.components.iter().all(|c| c.selected));
    app.toggle_selected();
    assert!(app.components.iter().all(|c| !c.selected));
}

#[test]
fn partly_selected_folder_becomes_fully_selected() {
    let comps = vec![
        comp(ComponentType::Agents, "grp/a.md", InstallStatus::New),
        comp(ComponentType::Agents, "grp/b.md", InstallStatus::Unchanged),
    ];
    let mut app = loaded_app(comps, vec![]);
    app.toggle_selected();
    assert!(app.components.iter().all(|c| c.selected));
}

#[test]
fn dispatcher_runs_one_item_at_a_time() {
    let comps = vec![
        comp(ComponentType::Agents, "a.md", InstallStatus::New),
        comp(ComponentType::Agents, "b.md", InstallStatus::New),
        comp(ComponentType::Rules, "r.md", InstallStatus::New),
    ];
    let mut app = loaded_app(comps, vec![]);
    app.install_selected(&vec![]);
    assert_eq!(app.current_view, Screen::Installing);
    assert_eq!(app.processing_queue, vec![0, 1]);
    assert_eq!(app.processing_log, vec!["Starting installation of 2 items...".to_string()]);
    assert_eq!(app.next_step(), DispatchStep::Dispatch);
    let item = app.dispatch_next();
    match item {
        WorkItem::Component { component, dest_dir, .. } => {
            assert_eq!(component.name, "a.md");
            assert_eq!(dest_dir, "home/.cfg");
        }
        _ => panic!("expected a file artifact"),
    }
    assert_eq!(app.in_flight, Some(0));
    assert_eq!(app.processing_log.last().unwrap(), "Installing a.md...");
    assert_eq!(app.next_step(), DispatchStep::AwaitCompletion);
    assert!(!app.request_close());
    app.handle_step_result(StepReport::Done("[OK] Installed a.md".to_string()));
    assert_eq!(app.processing_progress, Some(1));
    assert_eq!(app.next_step(), DispatchStep::Dispatch);
    app.dispatch_next();
    app.handle_step_result(StepReport::Crashed);
    assert_eq!(app.processing_progress, Some(2));
    assert_eq!(app.processing_log[4], "[ERR] Process thread crashed");
    assert_eq!(app.processing_log.last().unwrap(), "Refreshing status...");
    assert_eq!(app.next_step(), DispatchStep::StartRefresh);
    app.start_refresh();
    assert_eq!(app.next_step(), DispatchStep::AwaitRefresh);
    app.refresh_failed(Some("disk gone".to_string()));
    assert_eq!(app.processing_log.last().unwrap(), "[ERROR] Refresh failed: disk gone");
    assert!(app.request_close());
    assert_eq!(app.current_view, Screen::List);
}

#[test]
fn cancel_is_latched_and_clears_queue() {
    let comps = vec![
        comp(ComponentType::Agents, "a.md", InstallStatus::New),
        comp(ComponentType::Agents, "b.md", InstallStatus::New),
    ];
    let mut app = loaded_app(comps, vec![]);
    app.install_selected(&vec![]);
    app.dispatch_next();
    assert!(app.request_cancel());
    assert!(!app.request_cancel());
    assert!(app.processing_queue.is_empty());
    assert_eq!(app.processing_log.last().unwrap(), "[WARN] Cancelling current operation...");
    app.handle_step_result(StepReport::Failed(RunOutcome::Cancelled { cleanup_attempted: true }));
    assert!(app.processing_log.contains(&"[WARN] Cancelled by user".to_string()));
    assert!(app.processing_log.contains(&"[INFO] Cleaning up cancelled installation...".to_string()));
    assert!(app.needs_refresh);
}

#[test]
fn timeout_is_logged_as_error() {
    let comps = vec![comp(ComponentType::Agents, "a.md", InstallStatus::New)];
    let mut app = loaded_app(comps, vec![]);
    app.remove_selected();
    assert_eq!(app.processing_log[0], "Starting removal of 1 items...");
    app.dispatch_next();
    assert_eq!(app.processing_log.last().unwrap(), "Removing a.md...");
    app.handle_step_result(StepReport::Failed(RunOutcome::TimedOut { timeout_secs: 30, cleanup_attempted: false }));
    assert_eq!(app.processing_log[2], "[ERR] Removal timed out after 30s");
    assert_eq!(app.processing_log[3], "[OK] Removal complete!");
}

#[test]
fn refresh_completes_processing() {
    let comps = vec![comp(ComponentType::Agents, "a.md", InstallStatus::New)];
    let mut app = loaded_app(comps, vec![]);
    app.install_selected(&vec![]);
    app.dispatch_next();
    app.handle_step_result(StepReport::Done("[OK] Installed a.md".to_string()));
    app.start_refresh();
    let fresh = vec![comp(ComponentType::Agents, "a.md", InstallStatus::Unchanged)];
    app.apply_refresh_result(fresh, vec![], vec![]);
    assert!(app.processing_complete);
    assert_eq!(app.status_message.as_deref(), Some("Installed 1 items"));
    assert!(!app.request_cancel());
    assert_eq!(app.current_view, Screen::List);
}

#[test]
fn nothing_selected_is_reported() {
    let comps = vec![comp(ComponentType::Agents, "a.md", InstallStatus::Unchanged)];
    let mut app = loaded_app(comps, vec![]);
    app.install_selected(&vec![]);
    assert_eq!(app.status_message.as_deref(), Some("No items selected"));
    assert_eq!(app.current_view, Screen::List);
}

#[test]
fn missing_secret_opens_prompt_then_installs() {
    let def = server("ctx", "npx ctx", vec!["API_KEY"]);
    let mut s = McpServer::new(def, McpStatus::NotInstalled);
    s.selected = true;
    let mut app = loaded_app(vec![], vec![s]);
    app.set_tab(9);
    assert_eq!(app.tab, Tab::McpServers);
    app.install_selected(&vec![vec!["API_KEY".to_string()]]);
    assert_eq!(app.current_view, Screen::EnvInput);
    assert_eq!(app.current_env_var(), Some("API_KEY"));
    assert_eq!(app.current_env_server_name(), Some("ctx"));
    app.env_input_submit();
    assert_eq!(app.current_view, Screen::EnvInput);
    app.env_input_char('x');
    app.env_input_char('y');
    app.env_input_backspace();
    app.env_input_submit();
    assert_eq!(app.current_view, Screen::Installing);
    assert_eq!(app.env_input_values, vec![("API_KEY".to_string(), "x".to_string())]);
    let item = app.dispatch_next();
    match item {
        WorkItem::McpServer { server, scope, project_path, env_values } => {
            assert_eq!(server.def.name, "ctx");
            assert_eq!(scope, McpScope::User);
            assert_eq!(project_path, None);
            assert_eq!(env_values, vec![("API_KEY".to_string(), "x".to_string())]);
        }
        _ => panic!("expected an MCP server"),
    }
}

#[test]
fn rejected_definition_never_reaches_the_queue() {
    let defs = vec![server("good", "npx good", vec![]), server("evil", "npx x; rm -rf /", vec![])];
    let servers: Vec<McpServer> = defs
        .into_iter()
        .filter(|d| validate_mcp_server(d).is_none())
        .map(|d| {
            let mut s = McpServer::new(d, McpStatus::NotInstalled);
            s.selected = true;
            s
        })
        .collect();
    let mut app = loaded_app(vec![], servers);
    app.set_tab(9);
    app.install_selected(&vec![vec![]]);
    assert_eq!(app.processing_queue, vec![0]);
    assert_eq!(app.mcp_servers[0].def.name, "good");
}

#[test]
fn scope_toggle_and_project_path() {
    let mut app = loaded_app(vec![], vec![]);
    app.toggle_mcp_scope();
    assert_eq!(app.mcp_scope, McpScope::Local);
    assert_eq!(app.current_view, Screen::ProjectPath);
    assert_eq!(app.project_path_buffer, "/work");
    app.project_path_backspace();
    app.project_path_char('s');
    app.project_path_submit();
    assert_eq!(app.mcp_project_path, "/wors");
    assert_eq!(app.status_message.as_deref(), Some("MCP scope: local (/wors)"));
    app.toggle_mcp_scope();
    assert_eq!(app.status_message.as_deref(), Some("MCP scope: user"));
    app.toggle_mcp_scope();
    app.project_path_cancel();
    assert_eq!(app.mcp_scope, McpScope::User);
    assert_eq!(app.current_view, Screen::List);
}

#[test]
fn select_all_and_deselect_all_follow_tab() {
    let comps = vec![
        comp(ComponentType::Agents, "a.md", InstallStatus::Unchanged),
        comp(ComponentType::Rules, "r.md", InstallStatus::Unchanged),
    ];
    let mut app = loaded_app(comps, vec![]);
    app.select_all();
    assert!(app.components[0].selected);
    assert!(!app.components[1].selected);
    app.deselect_all();
    assert!(!app.components[0].selected);
}

#[test]
fn default_style_needs_styles_tab() {
    let comps = vec![comp(ComponentType::OutputStyles, "calm.md", InstallStatus::New)];
    let mut app = loaded_app(comps, vec![]);
    assert_eq!(app.set_default_style(), None);
    assert_eq!(app.status_message.as_deref(), Some("Switch to Styles tab to set default"));
    app.set_tab(6);
    assert_eq!(app.set_default_style(), Some("calm".to_string()));
    app.record_default_style("calm".to_string());
    assert_eq!(app.current_output_style.as_deref(), Some("calm"));
    assert_eq!(app.status_message.as_deref(), Some("Set default output style: calm"));
    assert!(app.unset_default_style());
    app.record_unset_default_style();
    assert_eq!(app.current_output_style, None);
    assert!(!app.unset_statusline());
    assert_eq!(app.status_message.as_deref(), Some("Switch to Statusline tab to unset default"));
}

#[test]
fn diff_view_scrolls_and_closes() {
    let comps = vec![comp(ComponentType::Agents, "a.md", InstallStatus::Modified)];
    let mut app = loaded_app(comps, vec![]);
    assert_eq!(app.diff_target(), Some(0));
    app.show_diff("--- a\n+++ b".to_string());
    assert_eq!(app.current_view, Screen::Diff);
    app.scroll_diff_up();
    assert_eq!(app.diff_scroll, 0);
    app.scroll_diff_down();
    app.scroll_diff_down();
    assert_eq!(app.diff_scroll, 2);
    app.close_diff();
    assert_eq!(app.current_view, Screen::List);
    assert_eq!(app.diff_content, None);
}

#[test]
fn tick_cycles_through_ten_frames() {
    let mut app = loaded_app(vec![], vec![]);
    for _ in 0..10 {
        app.tick();
    }
    assert_eq!(app.animation_frame, 0);
    app.tick();
    assert_eq!(app.animation_frame, 1);
}

#[test]
fn loading_failure_returns_to_cli_choice() {
    let mut app = App::new("s".into(), "d".into(), "p".into(), Theme::from_mode(ThemeMode::Mocha));
    app.select_cli(TargetCli::Claude, "d".into());
    app.loading_failed(Some("no catalog".to_string()));
    assert_eq!(app.current_view, Screen::CliSelection);
    assert_eq!(app.status_message.as_deref(), Some("Error loading: no catalog"));
}

#[test]
fn catalog_drops_invalid_servers_and_marks_installed() {

    let defs = vec![
        server("good", "npx good", vec![]),
        server("evil", "npx x; rm -rf /", vec![]),
        server("other", "uvx other", vec![]),
    ];
    let servers = catalog_servers(&defs, &vec!["other".to_string()]);
    let names: Vec<&str> = servers.iter().map(|s| s.def.name.as_str()).collect();
    assert_eq!(names, vec!["good", "other"]);
    assert_eq!(servers[0].status, McpStatus::NotInstalled);
    assert_eq!(servers[1].status, McpStatus::Installed);
    assert!(servers.iter().all(|s| !s.selected));
    let plugins = catalog_plugins(
        &vec![
            ("market".to_string(), "https://x.dev/m.git".to_string(), "lsp".to_string(), None),
            ("market".to_string(), "http://x.dev".to_string(), "bad".to_string(), None),
        ],
        &vec!["lsp".to_string()],
    );
    assert_eq!(plugins.len(), 1);
    assert_eq!(plugins[0].def.name, "lsp");
}
