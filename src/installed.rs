use vstd::prelude::*;
use vstd::string::*;
use crate::plugin::occurs_at;
use crate::runner::{trim_text, trimmed_of};
use crate::text::{is_prefix, owned, starts_with_str, str_eq, substring};
use crate::types::TargetCli;

verus! {

/// Unicode's White_Space property: its 25 code points.
pub open spec fn whitespace(c: char) -> bool {
    ||| ('\u{9}' <= c && c <= '\u{d}')
    ||| c == ' '
    ||| c == '\u{85}'
    ||| c == '\u{a0}'
    ||| c == '\u{1680}'
    ||| ('\u{2000}' <= c && c <= '\u{200a}')
    ||| c == '\u{2028}'
    ||| c == '\u{2029}'
    ||| c == '\u{202f}'
    ||| c == '\u{205f}'
    ||| c == '\u{3000}'
}

/// Whether `c` has Unicode's White_Space property.
pub fn is_space(c: char) -> (r: bool)
    ensures
        r == whitespace(c),
{
    ('\u{9}' <= c && c <= '\u{d}') || c == ' ' || c == '\u{85}' || c == '\u{a0}' || c == '\u{1680}'
        || ('\u{2000}' <= c && c <= '\u{200a}') || c == '\u{2028}' || c == '\u{2029}' || c == '\u{202f}'
        || c == '\u{205f}' || c == '\u{3000}'
}

/// The position of the first `c` in `s`, if any.
pub open spec fn first_index_of(s: Seq<char>, c: char, k: int) -> Option<int>
    decreases s.len() - k,
{
    if k < 0 || k >= s.len() {
        None
    } else if s[k] == c {
        Some(k)
    } else {
        first_index_of(s, c, k + 1)
    }
}

/// The characters of `s` before the first white space.
pub open spec fn first_token(s: Seq<char>, k: int) -> Seq<char>
    decreases s.len() - k,
{
    if k < 0 || k >= s.len() || whitespace(s[k]) {
        s.subrange(0, if 0 <= k <= s.len() { k } else { 0 })
    } else {
        first_token(s, k + 1)
    }
}

pub open spec fn contains_text(s: Seq<char>, p: Seq<char>) -> bool {
    exists|j: int| occurs_at(s, p, j)
}

/// The server that one line of the primary CLI's `mcp list` names:
/// `name: command - status`.
pub open spec fn primary_line_name(line: Seq<char>) -> Option<Seq<char>> {
    let t = trimmed_of(line);
    match first_index_of(t, ':', 0) {
        Some(i) => {
            let name = trimmed_of(t.subrange(0, i));
            if t.len() == 0 || name.len() == 0 { None } else { Some(name) }
        },
        None => None,
    }
}

/// The server that one line of Codex's `mcp list` table names: the first
/// column, header rows excluded.
pub open spec fn codex_line_name(line: Seq<char>) -> Option<Seq<char>> {
    let t = trimmed_of(line);
    let name = first_token(t, 0);
    if t.len() == 0 {
        None
    } else if is_prefix("Name"@, t) && (contains_text(t, "Command"@) || contains_text(t, "Url"@)) {
        None
    } else if name.len() == 0 || name == "Name"@ {
        None
    } else {
        Some(name)
    }
}

fn index_of(s: &str, c: char) -> (r: Option<usize>)
    ensures
        r matches Some(i) ==> first_index_of(s@, c, 0) == Some(i as int) && i < s@.len(),
        r is None ==> first_index_of(s@, c, 0) is None,
{
    let n = s.unicode_len();
    let mut k: usize = 0;
    while k < n
        invariant
            n == s@.len(),
            k <= n,
            first_index_of(s@, c, 0) == first_index_of(s@, c, k as int),
        decreases n - k,
    {
        if s.get_char(k) == c {
            return Some(k);
        }
        k = k + 1;
    }
    None
}

fn token(s: &str) -> (r: String)
    ensures
        r@ == first_token(s@, 0),
{
    let n = s.unicode_len();
    let mut k: usize = 0;
    while k < n
        invariant
            n == s@.len(),
            k <= n,
            first_token(s@, 0) == first_token(s@, k as int),
        decreases n - k,
    {
        if is_space(s.get_char(k)) {
            return substring(s, 0, k);
        }
        k = k + 1;
    }
    owned(s)
}

fn contains_str(s: &str, p: &str) -> (r: bool)
    ensures
        r == contains_text(s@, p@),
{
    crate::command::marketplace_listed(s, p)
}

/// The server named by one line of the primary CLI's `mcp list`.
pub fn primary_mcp_line(line: &str) -> (r: Option<String>)
    ensures
        crate::validation::opt_view(r) == primary_line_name(line@),
{
    let t = trim_text(line);
    match index_of(t.as_str(), ':') {
        Some(i) => {
            let head = substring(t.as_str(), 0, i);
            let name = trim_text(head.as_str());
            if t.as_str().unicode_len() == 0 || name.as_str().unicode_len() == 0 {
                None
            } else {
                Some(name)
            }
        },
        None => None,
    }
}

/// The server named by one line of Codex's `mcp list` table.
pub fn codex_mcp_line(line: &str) -> (r: Option<String>)
    ensures
        crate::validation::opt_view(r) == codex_line_name(line@),
{
    let t = trim_text(line);
    if t.as_str().unicode_len() == 0 {
        return None;
    }
    if starts_with_str(t.as_str(), "Name") && (contains_str(t.as_str(), "Command") || contains_str(t.as_str(), "Url")) {
        return None;
    }
    let name = token(t.as_str());
    if name.as_str().unicode_len() == 0 || str_eq(name.as_str(), "Name") {
        return None;
    }
    Some(name)
}

/// The server that line `q` of `mcp list` names; the primary CLI's first
/// line is a progress notice.
pub open spec fn line_name(lines: Seq<String>, cli: TargetCli, q: int) -> Option<Seq<char>> {
    match cli {
        TargetCli::Claude => if q >= 1 {
            primary_line_name(lines[q]@)
        } else {
            None
        },
        TargetCli::Codex => codex_line_name(lines[q]@),
    }
}

/// One of the first `n` lines names `name`.
pub open spec fn named_in(lines: Seq<String>, cli: TargetCli, name: Seq<char>, n: int) -> bool {
    exists|q: int| 0 <= q < n && #[trigger] line_name(lines, cli, q) == Some(name)
}

/// `name` is among the collected names.
pub open spec fn listed(r: Seq<String>, name: Seq<char>) -> bool {
    exists|k: int| 0 <= k < r.len() && (#[trigger] r[k])@ == name
}

/// The names of the installed servers in the lines of `mcp list`: every
/// name comes from a line, and every line that names a server gives it.
pub fn installed_mcp_names(lines: &Vec<String>, cli: TargetCli) -> (r: Vec<String>)
    ensures
        forall|k: int| 0 <= k < r@.len() ==> named_in(lines@, cli, (#[trigger] r@[k])@, lines@.len() as int),
        forall|q: int|
            0 <= q < lines@.len() && (#[trigger] line_name(lines@, cli, q)) is Some ==> listed(
                r@,
                line_name(lines@, cli, q)->0,
            ),
{
    let mut out: Vec<String> = Vec::new();
    let mut j: usize = 0;
    while j < lines.len()
        invariant
            j <= lines@.len(),
            forall|k: int| 0 <= k < out@.len() ==> named_in(lines@, cli, (#[trigger] out@[k])@, j as int),
            forall|q: int|
                0 <= q < j && (#[trigger] line_name(lines@, cli, q)) is Some ==> listed(
                    out@,
                    line_name(lines@, cli, q)->0,
                ),
        decreases lines@.len() - j,
    {
        let ghost before = out@;
        let found = match cli {
            TargetCli::Claude => if j >= 1 {
                primary_mcp_line(lines[j].as_str())
            } else {
                None
            },
            TargetCli::Codex => codex_mcp_line(lines[j].as_str()),
        };
        assert(crate::validation::opt_view(found) == line_name(lines@, cli, j as int));
        if let Some(name) = found {
            out.push(name);
        }
        assert forall|k: int| 0 <= k < out@.len() implies named_in(lines@, cli, (#[trigger] out@[k])@, j + 1) by {
            if k < before.len() {
                assert(out@[k] == before[k]);
                assert(named_in(lines@, cli, before[k]@, j as int));
            } else {
                assert(line_name(lines@, cli, j as int) == Some(out@[k]@));
            }
        }
        assert forall|q: int| 0 <= q < j + 1 && (#[trigger] line_name(lines@, cli, q)) is Some implies listed(
            out@,
            line_name(lines@, cli, q)->0,
        ) by {
            if q < j {
                assert(listed(before, line_name(lines@, cli, q)->0));
                let k = choose|k: int| 0 <= k < before.len() && (#[trigger] before[k])@ == line_name(lines@, cli, q)->0;
                assert(out@[k] == before[k]);
            } else {
                assert(out@[out@.len() - 1]@ == line_name(lines@, cli, q)->0);
            }
        }
        j = j + 1;
    }
    out
}

/// The plugin name of an `enabledPlugins` key `name@marketplace`.
pub fn enabled_plugin_name(key: &str) -> (r: String)
    ensures
        match first_index_of(key@, '@', 0) {
            Some(i) => r@ == key@.subrange(0, i),
            None => r@ == key@,
        },
{
    match index_of(key, '@') {
        Some(i) => substring(key, 0, i),
        None => owned(key),
    }
}

} // verus!
