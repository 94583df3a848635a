use vstd::prelude::*;
use vstd::string::*;
use crate::component::Platform;
use crate::mcp::{McpScope, McpServer, scope_label};
use crate::plugin::Plugin;
use crate::text::{concat2, concat3, owned};
use crate::tree::views;
use crate::types::{TargetCli, cli_binary};

verus! {

/// An external command line: program, arguments, working directory.
#[derive(Clone, Debug)]
pub struct CommandSpec {
    pub program: String,
    pub args: Vec<String>,
    pub current_dir: Option<String>,
}

/// The words of a command string under shell word-splitting, or `None` when
/// its quoting is unbalanced.
pub uninterp spec fn shell_words_of(s: Seq<char>) -> Option<Seq<Seq<char>>>;

/// Relies on `shlex::split`: the POSIX-shell words of the string, or `None`
/// on an unterminated quote or escape.
#[verifier::external_body]
fn split_words(s: &str) -> (r: Option<Vec<String>>)
    ensures
        r matches Some(v) ==> shell_words_of(s@) == Some(views(v@)),
        r is None ==> shell_words_of(s@) is None,
{
    shlex::split(s)
}

fn push_str(args: &mut Vec<String>, a: &str)
    ensures
        views(final(args)@) == views(old(args)@).push(a@),
{
    args.push(owned(a));
    assert(views(args@) =~= views(old(args)@).push(a@));
}

fn append_words(args: &mut Vec<String>, words: Vec<String>)
    ensures
        views(final(args)@) == views(old(args)@) + views(words@),
{
    let mut k: usize = 0;
    while k < words.len()
        invariant
            k <= words@.len(),
            views(args@) == views(old(args)@) + views(words@.subrange(0, k as int)),
        decreases words@.len() - k,
    {
        let ghost before = views(args@);
        push_str(args, words[k].as_str());
        assert(views(words@.subrange(0, k + 1)) =~= views(words@.subrange(0, k as int)).push(words@[k as int]@));
        assert(views(args@) =~= views(old(args)@) + views(words@.subrange(0, k + 1)));
        k = k + 1;
    }
    assert(words@.subrange(0, words@.len() as int) =~= words@);
}

/// The program and leading arguments that run the companion CLI.
pub open spec fn cli_prefix(cli: TargetCli, platform: Platform) -> (Seq<char>, Seq<Seq<char>>) {
    match platform {
        Platform::Windows => ("cmd"@, seq!["/c"@, cli_binary(cli)]),
        _ => (cli_binary(cli), Seq::empty()),
    }
}

/// A command that runs the companion CLI of `target_cli`; on Windows through
/// `cmd /c`, so that its `.cmd` shim is found.
pub fn create_cli_command(target_cli: TargetCli, platform: Platform) -> (r: CommandSpec)
    ensures
        r.program@ == cli_prefix(target_cli, platform).0,
        views(r.args@) == cli_prefix(target_cli, platform).1,
        r.current_dir is None,
{
    match platform {
        Platform::Windows => {
            let mut args: Vec<String> = Vec::new();
            push_str(&mut args, "/c");
            let b = target_cli.binary();
            push_str(&mut args, b.as_str());
            assert(views(args@) =~= seq!["/c"@, cli_binary(target_cli)]);
            CommandSpec { program: owned("cmd"), args, current_dir: None }
        },
        _ => {
            let args: Vec<String> = Vec::new();
            assert(views(args@) =~= Seq::<Seq<char>>::empty());
            CommandSpec { program: target_cli.binary(), args, current_dir: None }
        },
    }
}

/// A command that runs the primary CLI, which also manages plugins.
pub fn create_claude_command(platform: Platform) -> (r: CommandSpec)
    ensures
        r.program@ == cli_prefix(TargetCli::Claude, platform).0,
        views(r.args@) == cli_prefix(TargetCli::Claude, platform).1,
        r.current_dir is None,
{
    create_cli_command(TargetCli::Claude, platform)
}

/// What an MCP server installation needs besides the server itself.
#[derive(Clone, Debug)]
pub struct McpInstallConfig {
    pub scope: McpScope,
    pub project_path: Option<String>,
    pub env_values: Vec<(String, String)>,
    pub target_cli: TargetCli,
    pub timeout_secs: u64,
}

/// `flag KEY=VALUE` for every secret, in order.
pub open spec fn env_args(flag: Seq<char>, env: Seq<(String, String)>) -> Seq<Seq<char>>
    decreases env.len(),
{
    if env.len() == 0 {
        Seq::empty()
    } else {
        env_args(flag, env.drop_last()) + seq![flag, env.last().0@ + "="@ + env.last().1@]
    }
}

fn push_env_args(args: &mut Vec<String>, flag: &str, env: &Vec<(String, String)>)
    ensures
        views(final(args)@) == views(old(args)@) + env_args(flag@, env@),
{
    let mut k: usize = 0;
    while k < env.len()
        invariant
            k <= env@.len(),
            views(args@) == views(old(args)@) + env_args(flag@, env@.subrange(0, k as int)),
        decreases env@.len() - k,
    {
        let ghost before = views(args@);
        push_str(args, flag);
        let kv = concat3(env[k].0.as_str(), "=", env[k].1.as_str());
        push_str(args, kv.as_str());
        let ghost sub = env@.subrange(0, k + 1);
        assert(sub.drop_last() =~= env@.subrange(0, k as int));
        assert(views(args@) =~= views(old(args)@) + env_args(flag@, sub));
        k = k + 1;
    }
    assert(env@.subrange(0, env@.len() as int) =~= env@);
}

/// The transport part of `mcp add`: the URL of an HTTP server, or `--` and
/// the words of its command.
pub open spec fn transport_args(server: McpServer, cli: TargetCli, words: Seq<Seq<char>>) -> Seq<Seq<char>> {
    if server.def.server_type == Some(crate::mcp::McpType::Http) {
        match (cli, server.def.url) {
            (TargetCli::Claude, Some(u)) => seq!["-t"@, "http"@, u@],
            (TargetCli::Claude, None) => seq!["-t"@, "http"@],
            (TargetCli::Codex, Some(u)) => seq!["--url"@, u@],
            (TargetCli::Codex, None) => Seq::empty(),
        }
    } else {
        seq!["--"@] + words
    }
}

/// The words of the server's command; none when it has no command.
pub open spec fn command_words(server: McpServer) -> Option<Seq<Seq<char>>> {
    if server.def.server_type == Some(crate::mcp::McpType::Http) {
        Some(Seq::empty())
    } else {
        match server.def.command {
            Some(c) => shell_words_of(c@),
            None => Some(Seq::empty()),
        }
    }
}

/// The full argument list of `mcp add` after the CLI prefix.
pub open spec fn mcp_add_args(server: McpServer, config: McpInstallConfig, words: Seq<Seq<char>>) -> Seq<Seq<char>> {
    match config.target_cli {
        TargetCli::Claude => seq!["mcp"@, "add"@, "--scope"@, scope_label(config.scope), server.def.name@]
            + env_args("-e"@, config.env_values@) + transport_args(server, config.target_cli, words),
        TargetCli::Codex => seq!["mcp"@, "add"@] + env_args("--env"@, config.env_values@)
            + seq![server.def.name@] + transport_args(server, config.target_cli, words),
    }
}

/// The command that installs an MCP server, given the shell words of its
/// catalog command: secrets go as discrete `KEY=VALUE` arguments and the
/// words as separate arguments, never through a shell.
pub fn mcp_add_command(server: &McpServer, config: &McpInstallConfig, platform: Platform, words: Vec<String>) -> (r: CommandSpec)
    ensures
        r.program@ == cli_prefix(config.target_cli, platform).0,
        views(r.args@) == cli_prefix(config.target_cli, platform).1 + mcp_add_args(*server, *config, views(words@)),
        config.target_cli == TargetCli::Claude ==> crate::validation::opt_view(r.current_dir)
            == crate::validation::opt_view(config.project_path),
        config.target_cli == TargetCli::Codex ==> r.current_dir is None,
{
    let is_http = server.is_http();
    let ghost w = views(words@);
    let mut cmd = create_cli_command(config.target_cli, platform);
    let ghost prefix = views(cmd.args@);
    push_str(&mut cmd.args, "mcp");
    push_str(&mut cmd.args, "add");
    match config.target_cli {
        TargetCli::Claude => {
            push_str(&mut cmd.args, "--scope");
            push_str(&mut cmd.args, config.scope.display());
            push_str(&mut cmd.args, server.def.name.as_str());
            push_env_args(&mut cmd.args, "-e", &config.env_values);
            let ghost mid = views(cmd.args@);
            if is_http {
                push_str(&mut cmd.args, "-t");
                push_str(&mut cmd.args, "http");
                if let Some(u) = &server.def.url {
                    push_str(&mut cmd.args, u.as_str());
                }
            } else {
                push_str(&mut cmd.args, "--");
                append_words(&mut cmd.args, words);
            }
            assert(views(cmd.args@) =~= mid + transport_args(*server, config.target_cli, w));
            assert(views(cmd.args@) =~= prefix + mcp_add_args(*server, *config, w));
            cmd.current_dir = match &config.project_path {
                Some(p) => Some(owned(p.as_str())),
                None => None,
            };
        },
        TargetCli::Codex => {
            push_env_args(&mut cmd.args, "--env", &config.env_values);
            push_str(&mut cmd.args, server.def.name.as_str());
            let ghost mid = views(cmd.args@);
            if is_http {
                if let Some(u) = &server.def.url {
                    push_str(&mut cmd.args, "--url");
                    push_str(&mut cmd.args, u.as_str());
                }
            } else {
                push_str(&mut cmd.args, "--");
                append_words(&mut cmd.args, words);
            }
            assert(views(cmd.args@) =~= mid + transport_args(*server, config.target_cli, w));
            assert(views(cmd.args@) =~= prefix + mcp_add_args(*server, *config, w));
        },
    }
    cmd
}

/// The command that installs an MCP server; its catalog command is split
/// into shell words. Fails when the command's quoting is broken.
pub fn install_mcp_server(server: &McpServer, config: &McpInstallConfig, platform: Platform) -> (r: Result<
    CommandSpec,
    String,
>)
    ensures
        command_words(*server) is None <==> r is Err,
        r matches Err(e) ==> server.def.command matches Some(c) && e@ == "Invalid command syntax: "@ + c@,
        r matches Ok(cmd) ==> command_words(*server) matches Some(w) && cmd.program@ == cli_prefix(
            config.target_cli,
            platform,
        ).0 && views(cmd.args@) == cli_prefix(config.target_cli, platform).1 + mcp_add_args(*server, *config, w),
        r matches Ok(cmd) ==> (config.target_cli == TargetCli::Claude ==> crate::validation::opt_view(
            cmd.current_dir,
        ) == crate::validation::opt_view(config.project_path)),
        r matches Ok(cmd) ==> (config.target_cli == TargetCli::Codex ==> cmd.current_dir is None),
{
    let words: Vec<String> = if server.is_http() {
        Vec::new()
    } else {
        match &server.def.command {
            Some(c) => match split_words(c.as_str()) {
                Some(w) => w,
                None => {
                    return Err(concat2("Invalid command syntax: ", c.as_str()));
                },
            },
            None => Vec::new(),
        }
    };
    assert(command_words(*server) == Some(views(words@)));
    Ok(mcp_add_command(server, config, platform, words))
}

/// The command that removes an MCP server; it also undoes an interrupted
/// installation.
pub fn remove_mcp_server(server: &McpServer, target_cli: TargetCli, platform: Platform) -> (r: CommandSpec)
    ensures
        r.program@ == cli_prefix(target_cli, platform).0,
        views(r.args@) == cli_prefix(target_cli, platform).1 + seq!["mcp"@, "remove"@, server.def.name@],
        r.current_dir is None,
{
    let mut cmd = create_cli_command(target_cli, platform);
    let ghost prefix = views(cmd.args@);
    push_str(&mut cmd.args, "mcp");
    push_str(&mut cmd.args, "remove");
    push_str(&mut cmd.args, server.def.name.as_str());
    assert(views(cmd.args@) =~= prefix + seq!["mcp"@, "remove"@, server.def.name@]);
    cmd
}

/// The command that lists the registered plugin marketplaces.
pub fn marketplace_list_command(platform: Platform) -> (r: CommandSpec)
    ensures
        r.program@ == cli_prefix(TargetCli::Claude, platform).0,
        views(r.args@) == cli_prefix(TargetCli::Claude, platform).1 + seq!["plugin"@, "marketplace"@, "list"@],
{
    let mut cmd = create_claude_command(platform);
    let ghost prefix = views(cmd.args@);
    push_str(&mut cmd.args, "plugin");
    push_str(&mut cmd.args, "marketplace");
    push_str(&mut cmd.args, "list");
    assert(views(cmd.args@) =~= prefix + seq!["plugin"@, "marketplace"@, "list"@]);
    cmd
}

/// The command that registers a plugin marketplace from its source.
pub fn marketplace_add_command(source: &str, platform: Platform) -> (r: CommandSpec)
    ensures
        r.program@ == cli_prefix(TargetCli::Claude, platform).0,
        views(r.args@) == cli_prefix(TargetCli::Claude, platform).1 + seq!["plugin"@, "marketplace"@, "add"@, source@],
{
    let mut cmd = create_claude_command(platform);
    let ghost prefix = views(cmd.args@);
    push_str(&mut cmd.args, "plugin");
    push_str(&mut cmd.args, "marketplace");
    push_str(&mut cmd.args, "add");
    push_str(&mut cmd.args, source);
    assert(views(cmd.args@) =~= prefix + seq!["plugin"@, "marketplace"@, "add"@, source@]);
    cmd
}

/// `p` occurs somewhere in `s`.
pub open spec fn contains_seq(s: Seq<char>, p: Seq<char>) -> bool {
    exists|j: int| crate::plugin::occurs_at(s, p, j)
}

/// Whether the marketplace listing names the marketplace.
pub fn marketplace_listed(listing: &str, marketplace: &str) -> (r: bool)
    ensures
        r == contains_seq(listing@, marketplace@),
{
    let n = listing.unicode_len();
    let m = marketplace.unicode_len();
    if m > n {
        return false;
    }
    if m == 0 {
        assert(crate::plugin::occurs_at(listing@, marketplace@, 0)) by {
            assert(listing@.subrange(0, 0) =~= marketplace@);
        }
        return true;
    }
    let mut j: usize = 0;
    while j <= n - m
        invariant
            n == listing@.len(),
            m == marketplace@.len(),
            0 < m <= n,
            j <= n - m + 1,
            forall|q: int| 0 <= q < j ==> !crate::plugin::occurs_at(listing@, marketplace@, q),
        decreases n - m + 1 - j,
    {
        if crate::plugin::occurs_at_exec(listing, marketplace, j) {
            return true;
        }
        j = j + 1;
    }
    false
}

/// The command that installs a plugin as `name@marketplace`.
pub fn install_plugin(plugin: &Plugin, platform: Platform) -> (r: CommandSpec)
    ensures
        r.program@ == cli_prefix(TargetCli::Claude, platform).0,
        views(r.args@) == cli_prefix(TargetCli::Claude, platform).1 + seq![
            "plugin"@,
            "install"@,
            plugin.def.name@ + "@"@ + plugin.def.marketplace@,
        ],
{
    let mut cmd = create_claude_command(platform);
    let ghost prefix = views(cmd.args@);
    let spec_ref = concat3(plugin.def.name.as_str(), "@", plugin.def.marketplace.as_str());
    push_str(&mut cmd.args, "plugin");
    push_str(&mut cmd.args, "install");
    push_str(&mut cmd.args, spec_ref.as_str());
    assert(views(cmd.args@) =~= prefix + seq![
        "plugin"@,
        "install"@,
        plugin.def.name@ + "@"@ + plugin.def.marketplace@,
    ]);
    cmd
}

/// The command that uninstalls a plugin; it also undoes an interrupted
/// installation.
pub fn remove_plugin(plugin: &Plugin, platform: Platform) -> (r: CommandSpec)
    ensures
        r.program@ == cli_prefix(TargetCli::Claude, platform).0,
        views(r.args@) == cli_prefix(TargetCli::Claude, platform).1 + seq!["plugin"@, "uninstall"@, plugin.def.name@],
{
    let mut cmd = create_claude_command(platform);
    let ghost prefix = views(cmd.args@);
    push_str(&mut cmd.args, "plugin");
    push_str(&mut cmd.args, "uninstall");
    push_str(&mut cmd.args, plugin.def.name.as_str());
    assert(views(cmd.args@) =~= prefix + seq!["plugin"@, "uninstall"@, plugin.def.name@]);
    cmd
}

/// Timeouts: removals are given less time than installations.
pub open spec fn timeout_spec(is_mcp: bool, removing: bool) -> u64 {
    if removing {
        30
    } else if is_mcp {
        120
    } else {
        60
    }
}

/// The timeout of an external step, in seconds.
pub fn step_timeout(is_mcp: bool, removing: bool) -> (r: u64)
    ensures
        r == timeout_spec(is_mcp, removing),
{
    if removing {
        30
    } else if is_mcp {
        120
    } else {
        60
    }
}

} // verus!
