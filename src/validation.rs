use vstd::prelude::*;
use vstd::string::*;
use crate::mcp::McpServerDef;
use crate::text::{concat3, starts_with_str, is_prefix};

verus! {

/// Characters allowed in an identifier: ASCII letters and digits, `_` and `-`.
pub open spec fn is_ident_char(c: char) -> bool {
    ('a' <= c && c <= 'z') || ('A' <= c && c <= 'Z') || ('0' <= c && c <= '9') || c == '_' || c == '-'
}

/// A safe identifier: 1 to 100 identifier characters, not starting with `-`.
pub open spec fn safe_identifier(s: Seq<char>) -> bool {
    &&& 0 < s.len() <= 100
    &&& s[0] != '-'
    &&& forall|i: int| 0 <= i < s.len() ==> is_ident_char(#[trigger] s[i])
}

/// An HTTPS URL: `https://` followed by at least one more character.
pub open spec fn https_url(s: Seq<char>) -> bool {
    s.len() > 8 && is_prefix("https://"@, s)
}

/// Characters that would let a command string reach a shell.
pub open spec fn is_shell_meta(c: char) -> bool {
    c == '&' || c == '|' || c == '>' || c == '<' || c == ';' || c == '`' || c == '$' || c == '('
        || c == ')'
}

/// A safe command: non-empty and free of shell metacharacters.
pub open spec fn safe_command(s: Seq<char>) -> bool {
    s.len() > 0 && forall|i: int| 0 <= i < s.len() ==> !is_shell_meta(#[trigger] s[i])
}

pub fn is_safe_identifier(s: &str) -> (r: bool)
    ensures
        r == safe_identifier(s@),
{
    let n = s.unicode_len();
    if n == 0 || n > 100 {
        return false;
    }
    if s.get_char(0) == '-' {
        return false;
    }
    let mut i: usize = 0;
    while i < n
        invariant
            n == s@.len(),
            i <= n,
            forall|j: int| 0 <= j < i ==> is_ident_char(#[trigger] s@[j]),
        decreases n - i,
    {
        let c = s.get_char(i);
        let ok = ('a' <= c && c <= 'z') || ('A' <= c && c <= 'Z') || ('0' <= c && c <= '9') || c
            == '_' || c == '-';
        if !ok {
            return false;
        }
        i = i + 1;
    }
    true
}

pub fn is_https_url(s: &str) -> (r: bool)
    ensures
        r == https_url(s@),
{
    let p = starts_with_str(s, "https://");
    if !p {
        return false;
    }
    s.unicode_len() > 8
}

pub fn is_safe_command(s: &str) -> (r: bool)
    ensures
        r == safe_command(s@),
{
    let n = s.unicode_len();
    if n == 0 {
        return false;
    }
    let mut i: usize = 0;
    while i < n
        invariant
            n == s@.len(),
            i <= n,
            forall|j: int| 0 <= j < i ==> !is_shell_meta(#[trigger] s@[j]),
        decreases n - i,
    {
        let c = s.get_char(i);
        if c == '&' || c == '|' || c == '>' || c == '<' || c == ';' || c == '`' || c == '$' || c
            == '(' || c == ')' {
            return false;
        }
        i = i + 1;
    }
    true
}

/// The reason an MCP server definition is rejected, if it is.
pub open spec fn mcp_server_problem(
    name: Seq<char>,
    url: Option<Seq<char>>,
    command: Option<Seq<char>>,
) -> Option<Seq<char>> {
    if !safe_identifier(name) {
        Some(
            "MCP server '"@ + name
                + "': name must be alphanumeric/underscore/hyphen, 1-100 chars, not starting with '-'"@,
        )
    } else if url is Some && !https_url(url->0) {
        Some("MCP server '"@ + name + "': url must use https:// scheme, got '"@ + url->0 + "'"@)
    } else if command is Some && !safe_command(command->0) {
        Some("MCP server '"@ + name + "': command contains disallowed shell metacharacters"@)
    } else {
        None
    }
}

pub open spec fn opt_view(o: Option<String>) -> Option<Seq<char>> {
    match o {
        Some(s) => Some(s@),
        None => None,
    }
}

/// Checks a catalog entry; `None` when it is acceptable, else the reason.
pub fn validate_mcp_server(server: &McpServerDef) -> (r: Option<String>)
    ensures
        opt_view(r) == mcp_server_problem(
            server.name@,
            opt_view(server.url),
            opt_view(server.command),
        ),
{
    let name = server.name.as_str();
    if !is_safe_identifier(name) {
        return Some(
            concat3(
                "MCP server '",
                name,
                "': name must be alphanumeric/underscore/hyphen, 1-100 chars, not starting with '-'",
            ),
        );
    }
    if let Some(url) = &server.url {
        if !is_https_url(url.as_str()) {
            let head = concat3("MCP server '", name, "': url must use https:// scheme, got '");
            return Some(concat3(head.as_str(), url.as_str(), "'"));
        }
    }
    if let Some(cmd) = &server.command {
        if !is_safe_command(cmd.as_str()) {
            return Some(
                concat3(
                    "MCP server '",
                    name,
                    "': command contains disallowed shell metacharacters",
                ),
            );
        }
    }
    None
}

/// The reason a plugin entry is rejected, if it is.
pub open spec fn plugin_problem(name: Seq<char>, marketplace: Seq<char>, source: Seq<char>) -> Option<
    Seq<char>,
> {
    if !safe_identifier(name) {
        Some("Plugin '"@ + name + "': name must be alphanumeric/underscore/hyphen"@)
    } else if !safe_identifier(marketplace) {
        Some(
            "Plugin '"@ + name + "': marketplace '"@ + marketplace
                + "' must be alphanumeric/underscore/hyphen"@,
        )
    } else if !https_url(source) {
        Some("Plugin '"@ + name + "': source must use https:// scheme, got '"@ + source + "'"@)
    } else {
        None
    }
}

/// Checks a plugin entry; `None` when it is acceptable, else the reason.
pub fn validate_plugin(name: &str, marketplace: &str, source: &str) -> (r: Option<String>)
    ensures
        opt_view(r) == plugin_problem(name@, marketplace@, source@),
{
    if !is_safe_identifier(name) {
        return Some(concat3("Plugin '", name, "': name must be alphanumeric/underscore/hyphen"));
    }
    if !is_safe_identifier(marketplace) {
        let head = concat3("Plugin '", name, "': marketplace '");
        return Some(
            concat3(head.as_str(), marketplace, "' must be alphanumeric/underscore/hyphen"),
        );
    }
    if !is_https_url(source) {
        let head = concat3("Plugin '", name, "': source must use https:// scheme, got '");
        return Some(concat3(head.as_str(), source, "'"));
    }
    None
}

} // verus!
