use vstd::prelude::*;
use vstd::string::*;
use crate::text::{concat2, concat3};

verus! {

/// Category of an installable file artifact.
#[derive(Clone, Copy, Debug, PartialEq, Eq, Structural)]
pub enum ComponentType {
    Agents,
    Commands,
    Contexts,
    Rules,
    Skills,
    Hooks,
    OutputStyles,
    Statusline,
    ConfigFile,
}

pub open spec fn component_type_label(t: ComponentType) -> Seq<char> {
    match t {
        ComponentType::Agents => "agents"@,
        ComponentType::Commands => "commands"@,
        ComponentType::Contexts => "contexts"@,
        ComponentType::Rules => "rules"@,
        ComponentType::Skills => "skills"@,
        ComponentType::Hooks => "hooks"@,
        ComponentType::OutputStyles => "output-styles"@,
        ComponentType::Statusline => "statusline"@,
        ComponentType::ConfigFile => "config"@,
    }
}

impl ComponentType {
    pub fn display_name(&self) -> (r: &'static str)
        ensures
            r@ == component_type_label(*self),
    {
        match self {
            ComponentType::Agents => "agents",
            ComponentType::Commands => "commands",
            ComponentType::Contexts => "contexts",
            ComponentType::Rules => "rules",
            ComponentType::Skills => "skills",
            ComponentType::Hooks => "hooks",
            ComponentType::OutputStyles => "output-styles",
            ComponentType::Statusline => "statusline",
            ComponentType::ConfigFile => "config",
        }
    }
}

/// How a source artifact compares with what is installed.
#[derive(Clone, Copy, Debug, PartialEq, Eq, Structural)]
pub enum InstallStatus {
    New,
    Modified,
    Unchanged,
    Managed,
}

pub open spec fn install_status_label(s: InstallStatus) -> Seq<char> {
    match s {
        InstallStatus::New => "new"@,
        InstallStatus::Modified => "modified"@,
        InstallStatus::Unchanged => "installed"@,
        InstallStatus::Managed => "managed"@,
    }
}

impl InstallStatus {
    pub fn display(&self) -> (r: &'static str)
        ensures
            r@ == install_status_label(*self),
    {
        match self {
            InstallStatus::New => "new",
            InstallStatus::Modified => "modified",
            InstallStatus::Unchanged => "installed",
            InstallStatus::Managed => "managed",
        }
    }
}

/// Status from what is known of the two files: the destination's existence,
/// then the sizes, then the contents; never the timestamps.
pub open spec fn status_spec(dest_exists: bool, same_size: bool, same_bytes: bool) -> InstallStatus {
    if !dest_exists {
        InstallStatus::New
    } else if !same_size {
        InstallStatus::Modified
    } else if same_bytes {
        InstallStatus::Unchanged
    } else {
        InstallStatus::Modified
    }
}

/// Decides the status of an artifact from the comparison of its files.
pub fn determine_status(dest_exists: bool, same_size: bool, same_bytes: bool) -> (r: InstallStatus)
    ensures
        r == status_spec(dest_exists, same_size, same_bytes),
{
    if !dest_exists {
        InstallStatus::New
    } else if !same_size {
        InstallStatus::Modified
    } else if same_bytes {
        InstallStatus::Unchanged
    } else {
        InstallStatus::Modified
    }
}

/// Operating system family of the host, which decides binary names.
#[derive(Clone, Copy, Debug, PartialEq, Eq, Structural)]
pub enum Platform {
    Windows,
    MacOs,
    Linux,
}

/// Structured description of a hook artifact.
#[derive(Clone, Debug)]
pub struct HookConfig {
    pub name: String,
    pub event: String,
    pub hook_type: String,
    pub timeout: Option<u32>,
    pub description: Option<String>,
}

pub open spec fn binary_name_spec(name: Seq<char>, platform: Platform) -> Seq<char> {
    match platform {
        Platform::Windows => name + ".exe"@,
        Platform::MacOs => name + "_macos"@,
        Platform::Linux => name + "_linux"@,
    }
}

pub open spec fn hook_command_path_spec(name: Seq<char>, dest_dir: Seq<char>, platform: Platform) -> Seq<
    char,
> {
    match platform {
        Platform::Windows => dest_dir + "\\hooks\\"@ + binary_name_spec(name, platform),
        _ => "~/"@ + crate::types::cli_config_dir(crate::types::TargetCli::Claude) + "/hooks/"@ + binary_name_spec(name, platform),
    }
}

impl HookConfig {
    /// The binary file name of this hook on the given platform.
    pub fn binary_name(&self, platform: Platform) -> (r: String)
        ensures
            r@ == binary_name_spec(self.name@, platform),
    {
        match platform {
            Platform::Windows => concat2(self.name.as_str(), ".exe"),
            Platform::MacOs => concat2(self.name.as_str(), "_macos"),
            Platform::Linux => concat2(self.name.as_str(), "_linux"),
        }
    }

    /// The command that the settings file names for this hook.
    pub fn hook_command_path(&self, dest_dir: &str, platform: Platform) -> (r: String)
        ensures
            r@ == hook_command_path_spec(self.name@, dest_dir@, platform),
    {
        let bin = self.binary_name(platform);
        match platform {
            Platform::Windows => concat3(dest_dir, "\\hooks\\", bin.as_str()),
            _ => {
                let dir = crate::types::TargetCli::Claude.config_dir_name();
                let head = concat3("~/", dir.as_str(), "/hooks/");
                concat2(head.as_str(), bin.as_str())
            },
        }
    }
}

/// One file artifact: where it comes from, where it goes, and its state.
#[derive(Clone, Debug)]
pub struct Component {
    pub component_type: ComponentType,
    pub name: String,
    pub source_path: String,
    pub dest_path: String,
    pub selected: bool,
    pub status: InstallStatus,
    pub hook_config: Option<HookConfig>,
}

impl Component {
    /// A new artifact; it starts selected unless it is already installed unchanged.
    pub fn new(
        component_type: ComponentType,
        name: String,
        source_path: String,
        dest_path: String,
        status: InstallStatus,
    ) -> (r: Component)
        ensures
            r.component_type == component_type,
            r.name == name,
            r.source_path == source_path,
            r.dest_path == dest_path,
            r.status == status,
            r.selected == (status != InstallStatus::Unchanged),
            r.hook_config is None,
    {
        let selected = status != InstallStatus::Unchanged;
        Component {
            component_type,
            name,
            source_path,
            dest_path,
            selected,
            status,
            hook_config: None,
        }
    }

    pub fn with_hook_config(self, config: HookConfig) -> (r: Component)
        ensures
            r.hook_config == Some(config),
            r.component_type == self.component_type,
            r.name == self.name,
            r.source_path == self.source_path,
            r.dest_path == self.dest_path,
            r.selected == self.selected,
            r.status == self.status,
    {
        let mut c = self;
        c.hook_config = Some(config);
        c
    }

    /// The same artifact with the given hook description, or none.
    pub fn with_hook_config_opt(self, config: Option<HookConfig>) -> (r: Component)
        ensures
            r.hook_config == config,
            r.component_type == self.component_type,
            r.name == self.name,
            r.source_path == self.source_path,
            r.dest_path == self.dest_path,
            r.selected == self.selected,
            r.status == self.status,
    {
        let mut c = self;
        c.hook_config = config;
        c
    }

    /// `<category>/<name>`.
    pub fn display_name(&self) -> (r: String)
        ensures
            r@ == component_type_label(self.component_type) + "/"@ + self.name@,
    {
        concat3(self.component_type.display_name(), "/", self.name.as_str())
    }
}

/// The command that the settings file names for a statusline script.
pub open spec fn statusline_command_spec(dest_dir: Seq<char>, script: Seq<char>, platform: Platform) -> Seq<char> {
    match platform {
        Platform::Windows => dest_dir + "\\statusline\\"@ + script,
        _ => "~/"@ + crate::types::cli_config_dir(crate::types::TargetCli::Claude) + "/statusline/"@ + script,
    }
}

/// The command that the settings file names for a statusline script.
pub fn statusline_command(dest_dir: &str, script: &str, platform: Platform) -> (r: String)
    ensures
        r@ == statusline_command_spec(dest_dir@, script@, platform),
{
    match platform {
        Platform::Windows => concat3(dest_dir, "\\statusline\\", script),
        _ => {
            let dir = crate::types::TargetCli::Claude.config_dir_name();
            let head = concat3("~/", dir.as_str(), "/statusline/");
            concat2(head.as_str(), script)
        },
    }
}

/// Source files that are translations, named `*-ko.md`, are not installed.
pub fn is_translation(file_name: &str) -> (r: bool)
    ensures
        r == crate::text::is_suffix("-ko.md"@, file_name@),
{
    crate::text::ends_with_str(file_name, "-ko.md")
}

/// The last segment of a path: the longest suffix without a separator.
pub fn file_name_of(path: &str) -> (r: String)
    ensures
        crate::tree::has_no_sep(r@),
        crate::text::is_suffix(r@, path@),
        r@.len() < path@.len() ==> crate::tree::is_sep(path@[path@.len() - r@.len() - 1]),
{
    let n = path.unicode_len();
    let mut k: usize = n;
    while k > 0
        invariant
            n == path@.len(),
            k <= n,
            forall|j: int| k <= j < n ==> !crate::tree::is_sep(#[trigger] path@[j]),
        ensures
            k <= n,
            forall|j: int| k <= j < n ==> !crate::tree::is_sep(#[trigger] path@[j]),
            k == 0 || crate::tree::is_sep(path@[k - 1]),
        decreases k,
    {
        let c = path.get_char(k - 1);
        if c == '/' || c == '\\' {
            break;
        }
        k = k - 1;
    }
    let r = crate::text::substring(path, k, n);
    assert(path@.subrange(n - r@.len(), n as int) =~= r@);
    r
}

} // verus!
