use vstd::prelude::*;
use vstd::string::*;

verus! {

/// How widely an MCP server is installed.
#[derive(Clone, Copy, Debug, PartialEq, Eq, Structural)]
pub enum McpScope {
    User,
    Local,
}

pub open spec fn scope_label(s: McpScope) -> Seq<char> {
    match s {
        McpScope::User => "user"@,
        McpScope::Local => "local"@,
    }
}

impl McpScope {
    pub fn display(&self) -> (r: &'static str)
        ensures
            r@ == scope_label(*self),
    {
        match self {
            McpScope::User => "user",
            McpScope::Local => "local",
        }
    }

    pub fn toggle(&self) -> (r: McpScope)
        ensures
            r != *self,
    {
        match self {
            McpScope::User => McpScope::Local,
            McpScope::Local => McpScope::User,
        }
    }
}

impl Default for McpScope {
    fn default() -> (r: McpScope)
        ensures
            r == McpScope::User,
    {
        McpScope::User
    }
}

/// Transport of an MCP server: a local command or a remote HTTP endpoint.
#[derive(Clone, Copy, Debug, PartialEq, Eq, Structural)]
pub enum McpType {
    Command,
    Http,
}

impl Default for McpType {
    fn default() -> (r: McpType)
        ensures
            r == McpType::Command,
    {
        McpType::Command
    }
}

#[derive(Clone, Copy, Debug, PartialEq, Eq, Structural)]
pub enum McpStatus {
    Installed,
    NotInstalled,
}

impl McpStatus {
    pub fn display(&self) -> (r: &'static str)
        ensures
            *self == McpStatus::Installed ==> r@ == "installed"@,
            *self == McpStatus::NotInstalled ==> r@ == "not installed"@,
    {
        match self {
            McpStatus::Installed => "installed",
            McpStatus::NotInstalled => "not installed",
        }
    }
}

/// One entry of the MCP server catalog.
#[derive(Clone, Debug)]
pub struct McpServerDef {
    pub name: String,
    pub description: String,
    pub server_type: Option<McpType>,
    pub command: Option<String>,
    pub url: Option<String>,
    pub category: String,
    pub env: Vec<String>,
}

/// A catalog entry together with its selection and installed state.
#[derive(Clone, Debug)]
pub struct McpServer {
    pub def: McpServerDef,
    pub selected: bool,
    pub status: McpStatus,
}

impl McpServer {
    pub fn new(def: McpServerDef, status: McpStatus) -> (r: McpServer)
        ensures
            r.def == def,
            r.status == status,
            !r.selected,
    {
        McpServer { def, selected: false, status }
    }

    pub fn is_http(&self) -> (r: bool)
        ensures
            r == (self.def.server_type == Some(McpType::Http)),
    {
        match self.def.server_type {
            Some(McpType::Http) => true,
            _ => false,
        }
    }
}

/// The whole MCP server catalog.
#[derive(Clone, Debug)]
pub struct McpCatalog {
    pub servers: Vec<McpServerDef>,
}

} // verus!
