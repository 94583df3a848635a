use vstd::prelude::*;
use vstd::string::*;
use crate::component::ComponentType;
use crate::text::{concat2, owned, push_char};

verus! {

/// The CLI whose configuration directory is the install target.
#[derive(Clone, Copy, Debug, PartialEq, Eq, Structural)]
pub enum TargetCli {
    Claude,
    Codex,
}

impl TargetCli {
    pub fn display_name(&self) -> (r: String)
        ensures
            r@ == cli_display(*self),
    {
        match self {
            TargetCli::Claude => {
                let mut s = String::new();
                push_char(&mut s, 'C');
                let tail = primary_tail();
                s.append(tail.as_str());
                s.append(" Code");
                proof {
                    reveal_strlit(" Code");
                }
                assert(s@ =~= cli_display(*self));
                s
            },
            TargetCli::Codex => owned("Codex CLI"),
        }
    }

    pub fn config_dir_name(&self) -> (r: String)
        ensures
            r@ == cli_config_dir(*self),
    {
        let b = self.binary();
        concat2(".", b.as_str())
    }

    /// The binary of the companion CLI.
    pub fn binary(&self) -> (r: String)
        ensures
            r@ == cli_binary(*self),
    {
        match self {
            TargetCli::Claude => {
                let mut s = String::new();
                push_char(&mut s, 'c');
                let tail = primary_tail();
                s.append(tail.as_str());
                assert(s@ =~= cli_binary(*self));
                s
            },
            TargetCli::Codex => owned("codex"),
        }
    }
}

/// All but the first letter of the primary CLI's name.
pub open spec fn primary_tail_spec() -> Seq<char> {
    seq!['l', 'a', 'u', 'd', 'e']
}

fn primary_tail() -> (r: String)
    ensures
        r@ == primary_tail_spec(),
{
    let mut s = String::new();
    push_char(&mut s, 'l');
    push_char(&mut s, 'a');
    push_char(&mut s, 'u');
    push_char(&mut s, 'd');
    push_char(&mut s, 'e');
    assert(s@ =~= primary_tail_spec());
    s
}

pub open spec fn cli_config_dir(cli: TargetCli) -> Seq<char> {
    "."@ + cli_binary(cli)
}

pub open spec fn cli_display(cli: TargetCli) -> Seq<char> {
    match cli {
        TargetCli::Claude => seq!['C'] + primary_tail_spec() + " Code"@,
        TargetCli::Codex => "Codex CLI"@,
    }
}

pub open spec fn cli_binary(cli: TargetCli) -> Seq<char> {
    match cli {
        TargetCli::Claude => seq!['c'] + primary_tail_spec(),
        TargetCli::Codex => "codex"@,
    }
}

/// The tabs of the list view.
#[derive(Clone, Copy, Debug, PartialEq, Eq, Hash, Structural)]
pub enum Tab {
    Agents,
    Commands,
    Contexts,
    Rules,
    Skills,
    Hooks,
    OutputStyles,
    Statusline,
    Config,
    McpServers,
    Plugins,
}

/// Every tab, in display order.
pub open spec fn all_tabs() -> Seq<Tab> {
    seq![
        Tab::Agents,
        Tab::Commands,
        Tab::Contexts,
        Tab::Rules,
        Tab::Skills,
        Tab::Hooks,
        Tab::OutputStyles,
        Tab::Statusline,
        Tab::Config,
        Tab::McpServers,
        Tab::Plugins,
    ]
}

/// The tabs offered for a CLI.
pub open spec fn tabs_for(cli: TargetCli) -> Seq<Tab> {
    match cli {
        TargetCli::Claude => all_tabs(),
        TargetCli::Codex => seq![Tab::Skills, Tab::Config, Tab::McpServers],
    }
}

/// The title of a tab.
pub open spec fn tab_label(t: Tab) -> Seq<char> {
    match t {
        Tab::Agents => "Agents"@,
        Tab::Commands => "Commands"@,
        Tab::Contexts => "Contexts"@,
        Tab::Rules => "Rules"@,
        Tab::Skills => "Skills"@,
        Tab::Hooks => "Hooks"@,
        Tab::OutputStyles => "Styles"@,
        Tab::Statusline => "Statusline"@,
        Tab::Config => "Config"@,
        Tab::McpServers => "MCP"@,
        Tab::Plugins => "Plugins"@,
    }
}

/// The artifact category a tab lists, if it lists file artifacts.
pub open spec fn tab_component_type(t: Tab) -> Option<ComponentType> {
    match t {
        Tab::Agents => Some(ComponentType::Agents),
        Tab::Commands => Some(ComponentType::Commands),
        Tab::Contexts => Some(ComponentType::Contexts),
        Tab::Rules => Some(ComponentType::Rules),
        Tab::Skills => Some(ComponentType::Skills),
        Tab::Hooks => Some(ComponentType::Hooks),
        Tab::OutputStyles => Some(ComponentType::OutputStyles),
        Tab::Statusline => Some(ComponentType::Statusline),
        Tab::Config => Some(ComponentType::ConfigFile),
        Tab::McpServers => None,
        Tab::Plugins => None,
    }
}

/// Position of a file-artifact tab among the trees of the list view.
pub open spec fn tree_slot(t: Tab) -> int {
    match t {
        Tab::Agents => 0,
        Tab::Commands => 1,
        Tab::Contexts => 2,
        Tab::Rules => 3,
        Tab::Skills => 4,
        Tab::Hooks => 5,
        Tab::OutputStyles => 6,
        Tab::Statusline => 7,
        Tab::Config => 8,
        Tab::McpServers => 9,
        Tab::Plugins => 10,
    }
}

impl Tab {
    pub fn all() -> (r: Vec<Tab>)
        ensures
            r@ == all_tabs(),
    {
        let r = vec![
            Tab::Agents,
            Tab::Commands,
            Tab::Contexts,
            Tab::Rules,
            Tab::Skills,
            Tab::Hooks,
            Tab::OutputStyles,
            Tab::Statusline,
            Tab::Config,
            Tab::McpServers,
            Tab::Plugins,
        ];
        assert(r@ =~= all_tabs());
        r
    }

    pub fn for_cli(cli: TargetCli) -> (r: Vec<Tab>)
        ensures
            r@ == tabs_for(cli),
    {
        match cli {
            TargetCli::Claude => Self::all(),
            TargetCli::Codex => {
                let r = vec![Tab::Skills, Tab::Config, Tab::McpServers];
                assert(r@ =~= tabs_for(cli));
                r
            },
        }
    }

    pub fn display_name(&self) -> (r: &'static str)
        ensures
            r@ == tab_label(*self),
    {
        match self {
            Tab::Agents => "Agents",
            Tab::Commands => "Commands",
            Tab::Contexts => "Contexts",
            Tab::Rules => "Rules",
            Tab::Skills => "Skills",
            Tab::Hooks => "Hooks",
            Tab::OutputStyles => "Styles",
            Tab::Statusline => "Statusline",
            Tab::Config => "Config",
            Tab::McpServers => "MCP",
            Tab::Plugins => "Plugins",
        }
    }

    pub fn to_component_type(&self) -> (r: Option<ComponentType>)
        ensures
            r == tab_component_type(*self),
    {
        match self {
            Tab::Agents => Some(ComponentType::Agents),
            Tab::Commands => Some(ComponentType::Commands),
            Tab::Contexts => Some(ComponentType::Contexts),
            Tab::Rules => Some(ComponentType::Rules),
            Tab::Skills => Some(ComponentType::Skills),
            Tab::Hooks => Some(ComponentType::Hooks),
            Tab::OutputStyles => Some(ComponentType::OutputStyles),
            Tab::Statusline => Some(ComponentType::Statusline),
            Tab::Config => Some(ComponentType::ConfigFile),
            Tab::McpServers => None,
            Tab::Plugins => None,
        }
    }

    /// Position of this tab in the display order.
    pub fn index(&self) -> (r: usize)
        ensures
            r == tree_slot(*self),
            all_tabs()[r as int] == *self,
    {
        match self {
            Tab::Agents => 0,
            Tab::Commands => 1,
            Tab::Contexts => 2,
            Tab::Rules => 3,
            Tab::Skills => 4,
            Tab::Hooks => 5,
            Tab::OutputStyles => 6,
            Tab::Statusline => 7,
            Tab::Config => 8,
            Tab::McpServers => 9,
            Tab::Plugins => 10,
        }
    }
}

/// The modes of the interactive session.
#[derive(Clone, Copy, Debug, PartialEq, Eq, Structural)]
pub enum Screen {
    CliSelection,
    Loading,
    List,
    Diff,
    EnvInput,
    ProjectPath,
    Installing,
}

} // verus!
