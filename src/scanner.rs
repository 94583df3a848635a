use vstd::prelude::*;
use vstd::string::*;
use crate::component::{Component, ComponentType, HookConfig, InstallStatus, determine_status, is_translation, status_spec};
use crate::text::{is_suffix, owned, str_eq};
use crate::types::TargetCli;
use crate::mcp::{McpServer, McpServerDef, McpStatus};
use crate::plugin::{Plugin, PluginDef, PluginStatus};
use crate::validation::{mcp_server_problem, opt_view, plugin_problem, validate_mcp_server, validate_plugin};

verus! {

/// What the file-system walk found about one source artifact.
#[derive(Clone, Debug)]
pub struct ScannedFile {
    pub kind: ComponentType,
    pub name: String,
    pub file_name: String,
    pub source_path: String,
    pub dest_path: String,
    pub dest_exists: bool,
    pub same_size: bool,
    pub same_bytes: bool,
    pub hook_config: Option<HookConfig>,
}

/// Categories whose artifacts come from walking a whole directory.
pub open spec fn walked(kind: ComponentType) -> bool {
    kind != ComponentType::Hooks && kind != ComponentType::Statusline && kind != ComponentType::ConfigFile
}

/// A walked translation file is not an artifact.
pub open spec fn kept(f: ScannedFile) -> bool {
    !(walked(f.kind) && is_suffix("-ko.md"@, f.file_name@))
}

/// The status of a scanned artifact: an installed settings file is managed
/// (it is merged, never overwritten); any other is compared.
pub open spec fn scanned_status(f: ScannedFile) -> InstallStatus {
    if f.kind == ComponentType::ConfigFile && f.name@ == "settings.json"@ && f.dest_exists {
        InstallStatus::Managed
    } else {
        status_spec(f.dest_exists, f.same_size, f.same_bytes)
    }
}

/// The artifact made of a scanned file.
pub open spec fn artifact_of(f: ScannedFile, c: Component) -> bool {
    &&& c.component_type == f.kind
    &&& c.name@ == f.name@
    &&& c.source_path@ == f.source_path@
    &&& c.dest_path@ == f.dest_path@
    &&& c.status == scanned_status(f)
    &&& c.selected == (scanned_status(f) != InstallStatus::Unchanged)
    &&& crate::app::same_hook(c.hook_config, f.hook_config)
}

/// The kept files of the first `n`.
pub open spec fn kept_upto(files: Seq<ScannedFile>, n: int) -> Seq<ScannedFile>
    decreases n,
{
    if n <= 0 {
        Seq::empty()
    } else if kept(files[n - 1]) {
        kept_upto(files, n - 1).push(files[n - 1])
    } else {
        kept_upto(files, n - 1)
    }
}

/// The directories walked for each CLI, with the category of their files.
pub fn scan_directories(cli: TargetCli) -> (r: Vec<(ComponentType, &'static str)>)
    ensures
        cli == TargetCli::Codex ==> r@.len() == 1 && r@[0].0 == ComponentType::Skills && r@[0].1@ == "skills"@,
        cli == TargetCli::Claude ==> r@.len() == 6 && r@[0].0 == ComponentType::Agents && r@[0].1@ == "agents"@
            && r@[1].0 == ComponentType::Commands && r@[1].1@ == "commands"@ && r@[2].0 == ComponentType::Contexts
            && r@[2].1@ == "contexts"@ && r@[3].0 == ComponentType::Rules && r@[3].1@ == "rules"@ && r@[4].0
            == ComponentType::Skills && r@[4].1@ == "skills"@ && r@[5].0 == ComponentType::OutputStyles
            && r@[5].1@ == "output-styles"@,
{
    match cli {
        TargetCli::Claude => vec![
            (ComponentType::Agents, "agents"),
            (ComponentType::Commands, "commands"),
            (ComponentType::Contexts, "contexts"),
            (ComponentType::Rules, "rules"),
            (ComponentType::Skills, "skills"),
            (ComponentType::OutputStyles, "output-styles"),
        ],
        TargetCli::Codex => vec![(ComponentType::Skills, "skills")],
    }
}

fn copy_hook(h: &Option<HookConfig>) -> (r: Option<HookConfig>)
    ensures
        crate::app::same_hook(r, *h),
{
    match h {
        Some(h) => Some(
            HookConfig {
                name: owned(h.name.as_str()),
                event: owned(h.event.as_str()),
                hook_type: owned(h.hook_type.as_str()),
                timeout: h.timeout,
                description: match &h.description {
                    Some(d) => Some(owned(d.as_str())),
                    None => None,
                },
            },
        ),
        None => None,
    }
}

/// The artifacts of a scan: one per kept file, in order, with its status.
pub fn scan_components(files: &Vec<ScannedFile>) -> (r: Vec<Component>)
    ensures
        r@.len() == kept_upto(files@, files@.len() as int).len(),
        forall|k: int| 0 <= k < r@.len() ==> artifact_of(kept_upto(files@, files@.len() as int)[k], #[trigger] r@[k]),
{
    let mut out: Vec<Component> = Vec::new();
    let mut i: usize = 0;
    while i < files.len()
        invariant
            i <= files@.len(),
            out@.len() == kept_upto(files@, i as int).len(),
            forall|k: int| 0 <= k < out@.len() ==> artifact_of(kept_upto(files@, i as int)[k], #[trigger] out@[k]),
        decreases files@.len() - i,
    {
        let f = &files[i];
        let is_walked = match f.kind {
            ComponentType::Hooks | ComponentType::Statusline | ComponentType::ConfigFile => false,
            _ => true,
        };
        if !(is_walked && is_translation(f.file_name.as_str())) {
            let managed = match f.kind {
                ComponentType::ConfigFile => f.dest_exists && str_eq(f.name.as_str(), "settings.json"),
                _ => false,
            };
            let status = if managed {
                InstallStatus::Managed
            } else {
                determine_status(f.dest_exists, f.same_size, f.same_bytes)
            };
            let c = Component::new(
                f.kind,
                owned(f.name.as_str()),
                owned(f.source_path.as_str()),
                owned(f.dest_path.as_str()),
                status,
            ).with_hook_config_opt(copy_hook(&f.hook_config));
            out.push(c);
        }
        i = i + 1;
    }
    out
}

/// The catalog entries that pass validation, of the first `n`.
pub open spec fn valid_defs(defs: Seq<McpServerDef>, n: int) -> Seq<McpServerDef>
    decreases n,
{
    if n <= 0 {
        Seq::empty()
    } else if mcp_server_problem(defs[n - 1].name@, opt_view(defs[n - 1].url), opt_view(defs[n - 1].command)) is None {
        valid_defs(defs, n - 1).push(defs[n - 1])
    } else {
        valid_defs(defs, n - 1)
    }
}

/// `name` is one of the installed names.
pub open spec fn is_installed(installed: Seq<String>, name: Seq<char>) -> bool {
    exists|k: int| 0 <= k < installed.len() && (#[trigger] installed[k])@ == name
}

fn installed_contains(installed: &Vec<String>, name: &String) -> (r: bool)
    ensures
        r == is_installed(installed@, name@),
{
    let mut k: usize = 0;
    while k < installed.len()
        invariant
            k <= installed@.len(),
            forall|j: int| 0 <= j < k ==> (#[trigger] installed@[j])@ != name@,
        decreases installed@.len() - k,
    {
        if installed[k].eq(name) {
            return true;
        }
        k = k + 1;
    }
    false
}

/// The MCP servers of a parsed catalog: a definition that fails validation
/// (unsafe name, non-HTTPS URL, shell metacharacters in the command) is left
/// out and so can never be queued; the others keep their order, start
/// deselected, and are marked installed when their name is installed.
pub fn catalog_servers(defs: &Vec<McpServerDef>, installed: &Vec<String>) -> (r: Vec<McpServer>)
    ensures
        r@.len() == valid_defs(defs@, defs@.len() as int).len(),
        forall|k: int|
            0 <= k < r@.len() ==> {
                let d = valid_defs(defs@, defs@.len() as int)[k];
                &&& crate::app::same_def((#[trigger] r@[k]).def, d)
                &&& !r@[k].selected
                &&& (r@[k].status == McpStatus::Installed <==> is_installed(installed@, d.name@))
            },
{
    let mut out: Vec<McpServer> = Vec::new();
    let mut i: usize = 0;
    while i < defs.len()
        invariant
            i <= defs@.len(),
            out@.len() == valid_defs(defs@, i as int).len(),
            forall|k: int|
                0 <= k < out@.len() ==> {
                    let d = valid_defs(defs@, i as int)[k];
                    &&& crate::app::same_def((#[trigger] out@[k]).def, d)
                    &&& !out@[k].selected
                    &&& (out@[k].status == McpStatus::Installed <==> is_installed(installed@, d.name@))
                },
        decreases defs@.len() - i,
    {
        if validate_mcp_server(&defs[i]).is_none() {
            let status = if installed_contains(installed, &defs[i].name) {
                McpStatus::Installed
            } else {
                McpStatus::NotInstalled
            };
            out.push(McpServer::new(crate::app::copy_def(&defs[i]), status));
        }
        i = i + 1;
    }
    out
}

/// The plugin entries that pass validation, of the first `n`.
pub open spec fn valid_plugins(entries: Seq<(String, String, String, Option<String>)>, n: int) -> Seq<
    (String, String, String, Option<String>),
>
    decreases n,
{
    if n <= 0 {
        Seq::empty()
    } else if plugin_problem(entries[n - 1].2@, entries[n - 1].0@, entries[n - 1].1@) is None {
        valid_plugins(entries, n - 1).push(entries[n - 1])
    } else {
        valid_plugins(entries, n - 1)
    }
}

/// The plugins of a parsed catalog of `(marketplace, source, name, comment)`
/// entries: an entry that fails validation is left out; the others keep their
/// order, start deselected, and are marked installed when their name is.
pub fn catalog_plugins(entries: &Vec<(String, String, String, Option<String>)>, installed: &Vec<String>) -> (r: Vec<Plugin>)
    ensures
        r@.len() == valid_plugins(entries@, entries@.len() as int).len(),
        forall|k: int|
            0 <= k < r@.len() ==> {
                let e = valid_plugins(entries@, entries@.len() as int)[k];
                &&& (#[trigger] r@[k]).def.marketplace@ == e.0@
                &&& r@[k].def.source@ == e.1@
                &&& r@[k].def.name@ == e.2@
                &&& opt_view(r@[k].def.comment) == opt_view(e.3)
                &&& !r@[k].selected
                &&& (r@[k].status == PluginStatus::Installed <==> is_installed(installed@, e.2@))
            },
{
    let mut out: Vec<Plugin> = Vec::new();
    let mut i: usize = 0;
    while i < entries.len()
        invariant
            i <= entries@.len(),
            out@.len() == valid_plugins(entries@, i as int).len(),
            forall|k: int|
                0 <= k < out@.len() ==> {
                    let e = valid_plugins(entries@, i as int)[k];
                    &&& (#[trigger] out@[k]).def.marketplace@ == e.0@
                    &&& out@[k].def.source@ == e.1@
                    &&& out@[k].def.name@ == e.2@
                    &&& opt_view(out@[k].def.comment) == opt_view(e.3)
                    &&& !out@[k].selected
                    &&& (out@[k].status == PluginStatus::Installed <==> is_installed(installed@, e.2@))
                },
        decreases entries@.len() - i,
    {
        let (market, source, name, comment) = &entries[i];
        if validate_plugin(name.as_str(), market.as_str(), source.as_str()).is_none() {
            let status = if installed_contains(installed, name) {
                PluginStatus::Installed
            } else {
                PluginStatus::NotInstalled
            };
            let def = PluginDef {
                name: owned(name.as_str()),
                marketplace: owned(market.as_str()),
                source: owned(source.as_str()),
                comment: crate::app::copy_opt(comment),
            };
            out.push(Plugin::new(def, status));
        }
        i = i + 1;
    }
    out
}

} // verus!
