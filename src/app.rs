use vstd::prelude::*;
use vstd::string::*;
use crate::component::{Component, ComponentType};
use crate::mcp::{McpScope, McpServer, scope_label};
use crate::plugin::Plugin;
use crate::text::{clear_string, concat2, concat3, owned, pop_char, push_char, substring, ends_with_str, is_suffix};
use crate::theme::Theme;
use crate::tree::{TreeView, leaves_node};
use crate::types::{Screen, Tab, TargetCli, tab_component_type, tabs_for, tree_slot};

verus! {

/// Number of tabs that list file artifacts, and so own a selection tree.
pub const TREE_TABS: usize = 9;

/// The category of the artifacts of tree slot `i`.
pub open spec fn slot_type(i: int) -> ComponentType {
    if i == 0 {
        ComponentType::Agents
    } else if i == 1 {
        ComponentType::Commands
    } else if i == 2 {
        ComponentType::Contexts
    } else if i == 3 {
        ComponentType::Rules
    } else if i == 4 {
        ComponentType::Skills
    } else if i == 5 {
        ComponentType::Hooks
    } else if i == 6 {
        ComponentType::OutputStyles
    } else if i == 7 {
        ComponentType::Statusline
    } else {
        ComponentType::ConfigFile
    }
}

fn slot_type_exec(i: usize) -> (r: ComponentType)
    ensures
        r == slot_type(i as int),
{
    if i == 0 {
        ComponentType::Agents
    } else if i == 1 {
        ComponentType::Commands
    } else if i == 2 {
        ComponentType::Contexts
    } else if i == 3 {
        ComponentType::Rules
    } else if i == 4 {
        ComponentType::Skills
    } else if i == 5 {
        ComponentType::Hooks
    } else if i == 6 {
        ComponentType::OutputStyles
    } else if i == 7 {
        ComponentType::Statusline
    } else {
        ComponentType::ConfigFile
    }
}

/// The positions `i < n` where `flags[i]` holds, in increasing order.
pub open spec fn marked_upto(flags: Seq<bool>, n: int) -> Seq<usize>
    decreases n,
{
    if n <= 0 {
        Seq::empty()
    } else if flags[n - 1] {
        marked_upto(flags, n - 1).push((n - 1) as usize)
    } else {
        marked_upto(flags, n - 1)
    }
}

pub open spec fn marked(flags: Seq<bool>) -> Seq<usize> {
    marked_upto(flags, flags.len() as int)
}

/// Which artifacts are of category `t`.
pub open spec fn of_type(cs: Seq<Component>, t: ComponentType) -> Seq<bool> {
    cs.map_values(|c: Component| c.component_type == t)
}

/// Which artifacts of category `t` are selected.
pub open spec fn selected_of_type(cs: Seq<Component>, t: ComponentType) -> Seq<bool> {
    cs.map_values(|c: Component| c.selected && c.component_type == t)
}

pub open spec fn selection_flags(cs: Seq<Component>) -> Seq<bool> {
    cs.map_values(|c: Component| c.selected)
}

pub open spec fn mcp_flags(ms: Seq<McpServer>) -> Seq<bool> {
    ms.map_values(|m: McpServer| m.selected)
}

pub open spec fn plugin_flags(ps: Seq<Plugin>) -> Seq<bool> {
    ps.map_values(|p: Plugin| p.selected)
}

/// The first `k` listed indices are in range and flagged.
pub open spec fn flagged_upto(flags: Seq<bool>, idx: Seq<usize>, k: int) -> bool
    decreases k,
{
    if k <= 0 {
        true
    } else {
        flagged_upto(flags, idx, k - 1) && idx[k - 1] < flags.len() && flags[idx[k - 1] as int]
    }
}

/// Every listed index is in range and flagged, and there is at least one.
pub open spec fn all_flagged(flags: Seq<bool>, idx: Seq<usize>) -> bool {
    idx.len() > 0 && flagged_upto(flags, idx, idx.len() as int)
}

proof fn lemma_flagged_upto(flags: Seq<bool>, idx: Seq<usize>, k: int)
    requires
        0 <= k <= idx.len(),
    ensures
        flagged_upto(flags, idx, k) <==> forall|t: int| 0 <= t < k ==> (#[trigger] idx[t]) < flags.len() && flags[idx[t] as int],
    decreases k,
{
    if k > 0 {
        lemma_flagged_upto(flags, idx, k - 1);
    }
}

/// The flags with every listed position set to `v`.
pub open spec fn set_flags(flags: Seq<bool>, idx: Seq<usize>, v: bool) -> Seq<bool> {
    Seq::new(flags.len(), |i: int| if lists(idx, i) { v } else { flags[i] })
}

/// Position `i` is one of the listed indices.
pub open spec fn lists(idx: Seq<usize>, i: int) -> bool {
    exists|t: int| 0 <= t < idx.len() && idx[t] as int == i
}

/// The folder toggle: select the whole group unless it is all selected
/// already, in which case deselect it.
pub open spec fn folder_toggle(flags: Seq<bool>, idx: Seq<usize>) -> Seq<bool> {
    set_flags(flags, idx, !all_flagged(flags, idx))
}

/// Toggling a folder whose leaves are all deselected selects every one of
/// them, and toggling it again deselects them all, which gives back the
/// selection that was there before the first toggle.
pub proof fn lemma_folder_toggle_pair(flags: Seq<bool>, idx: Seq<usize>)
    requires
        idx.len() > 0,
        forall|t: int| 0 <= t < idx.len() ==> (#[trigger] idx[t]) < flags.len(),
        forall|t: int| 0 <= t < idx.len() ==> !flags[(#[trigger] idx[t]) as int],
    ensures
        forall|t: int| 0 <= t < idx.len() ==> folder_toggle(flags, idx)[(#[trigger] idx[t]) as int],
        folder_toggle(folder_toggle(flags, idx), idx) == flags,
{
    lemma_flagged_upto(flags, idx, idx.len() as int);
    assert(!all_flagged(flags, idx)) by {
        assert(!flags[idx[0] as int]);
    }
    let once = folder_toggle(flags, idx);
    assert forall|t: int| 0 <= t < idx.len() implies once[(#[trigger] idx[t]) as int] by {
        assert(lists(idx, idx[t] as int));
    }
    lemma_flagged_upto(once, idx, idx.len() as int);
    assert(all_flagged(once, idx));
    let twice = folder_toggle(once, idx);
    assert forall|i: int| 0 <= i < flags.len() implies twice[i] == flags[i] by {
        if lists(idx, i) {
            let t = choose|t: int| 0 <= t < idx.len() && idx[t] as int == i;
            assert(!flags[idx[t] as int]);
        }
    }
    assert(twice =~= flags);
}

/// The whole state of an interactive session.
pub struct App {
    pub target_cli: Option<TargetCli>,
    pub available_tabs: Vec<Tab>,
    pub tab: Tab,
    pub current_view: Screen,
    pub should_quit: bool,
    pub theme: Theme,
    pub components: Vec<Component>,
    pub list_index: usize,
    pub tree_views: Vec<TreeView>,
    pub mcp_servers: Vec<McpServer>,
    pub mcp_index: usize,
    pub mcp_scope: McpScope,
    pub mcp_project_path: String,
    pub plugins: Vec<Plugin>,
    pub plugin_index: usize,
    pub diff_content: Option<String>,
    pub diff_scroll: u16,
    pub source_dir: String,
    pub dest_dir: String,
    pub status_message: Option<String>,
    pub current_output_style: Option<String>,
    pub current_statusline: Option<String>,
    pub processing_progress: Option<usize>,
    pub processing_total: Option<usize>,
    pub processing_log: Vec<String>,
    pub processing_queue: Vec<usize>,
    pub is_removing: bool,
    pub animation_frame: usize,
    pub needs_refresh: bool,
    pub refreshing: bool,
    pub processing_complete: bool,
    pub cancelling: bool,
    pub in_flight: Option<usize>,
    pub env_input_server_idx: Option<usize>,
    pub env_input_vars: Vec<String>,
    pub env_input_current: usize,
    pub env_input_buffer: String,
    pub env_input_values: Vec<(String, String)>,
    pub project_path_buffer: String,
}

/// The trees of the list view: one per file-artifact category, each holding a
/// leaf for every artifact of its category.
pub open spec fn trees_of(cs: Seq<Component>, ts: Seq<TreeView>) -> bool {
    &&& ts.len() == TREE_TABS
    &&& forall|s: int| 0 <= s < TREE_TABS ==> (#[trigger] ts[s]).wf() && ts[s].cursor == 0
    &&& forall|s: int, i: int|
        0 <= s < TREE_TABS && 0 <= i < cs.len() && cs[i].component_type == slot_type(s)
            ==> #[trigger] crate::tree::has_leaf(ts[s].nodes@, i as usize)
}

/// Builds the tree of every file-artifact tab.
pub fn build_tree_views(components: &Vec<Component>) -> (r: Vec<TreeView>)
    ensures
        trees_of(components@, r@),
{
    let mut out: Vec<TreeView> = Vec::new();
    let mut s: usize = 0;
    while s < TREE_TABS
        invariant
            s <= TREE_TABS,
            out@.len() == s,
            forall|q: int| 0 <= q < s ==> (#[trigger] out@[q]).wf() && out@[q].cursor == 0,
            forall|q: int, i: int|
                0 <= q < s && 0 <= i < components@.len() && components@[i].component_type == slot_type(q)
                    ==> #[trigger] crate::tree::has_leaf(out@[q].nodes@, i as usize),
        decreases TREE_TABS - s,
    {
        let t = slot_type_exec(s);
        let mut filtered: Vec<(usize, &Component)> = Vec::new();
        let mut i: usize = 0;
        while i < components.len()
            invariant
                i <= components@.len(),
                filtered@.len() <= i,
                forall|k: int| 0 <= k < filtered@.len() ==> (#[trigger] filtered@[k]).0 < components@.len()
                    && *filtered@[k].1 == components@[filtered@[k].0 as int],
                forall|j: int|
                    0 <= j < i && components@[j].component_type == t ==> exists|k: int|
                        0 <= k < filtered@.len() && (#[trigger] filtered@[k]).0 == j,
            decreases components@.len() - i,
        {
            let ghost before = filtered@;
            if components[i].component_type == t {
                filtered.push((i, &components[i]));
            }
            assert forall|j: int|
                0 <= j < i + 1 && components@[j].component_type == t implies exists|k: int|
                    0 <= k < filtered@.len() && (#[trigger] filtered@[k]).0 == j by {
                if j < i {
                    let k = choose|k: int| 0 <= k < before.len() && (#[trigger] before[k]).0 == j;
                    assert(filtered@[k] == before[k]);
                } else {
                    assert(filtered@[filtered@.len() - 1].0 == j);
                }
            }
            i = i + 1;
        }
        let tree = TreeView::build_from_components(components.as_slice(), filtered.as_slice());
        assert forall|i: int|
            0 <= i < components@.len() && components@[i].component_type == slot_type(s as int)
                implies crate::tree::has_leaf(tree.nodes@, i as usize) by {
            let k = choose|k: int| 0 <= k < filtered@.len() && (#[trigger] filtered@[k]).0 == i;
            assert(crate::tree::has_leaf(tree.nodes@, filtered@[k].0));
        }
        out.push(tree);
        s = s + 1;
    }
    out
}

impl App {
    /// A session at its start: choosing the target CLI.
    pub fn new(source_dir: String, dest_dir: String, project_dir: String, theme: Theme) -> (r: App)
        ensures
            r.current_view == Screen::CliSelection,
            r.target_cli is None,
            r.source_dir == source_dir,
            r.dest_dir == dest_dir,
            r.mcp_project_path@ == project_dir@,
            r.project_path_buffer@ == project_dir@,
            r.mcp_scope == McpScope::User,
            r.tab == Tab::Agents,
            r.available_tabs@.len() == 0,
            r.components@.len() == 0,
            r.processing_queue@.len() == 0,
            r.in_flight is None,
            !r.should_quit,
            r.wf(),
    {
        let components: Vec<Component> = Vec::new();
        let tree_views = build_tree_views(&components);
        (App {
            target_cli: None,
            available_tabs: Vec::new(),
            tab: Tab::Agents,
            current_view: Screen::CliSelection,
            should_quit: false,
            theme,
            components,
            list_index: 0,
            tree_views,
            mcp_servers: Vec::new(),
            mcp_index: 0,
            mcp_scope: McpScope::User,
            mcp_project_path: owned(project_dir.as_str()),
            plugins: Vec::new(),
            plugin_index: 0,
            diff_content: None,
            diff_scroll: 0,
            source_dir,
            dest_dir,
            status_message: None,
            current_output_style: None,
            current_statusline: None,
            processing_progress: None,
            processing_total: None,
            processing_log: Vec::new(),
            processing_queue: Vec::new(),
            is_removing: false,
            animation_frame: 0,
            needs_refresh: false,
            refreshing: false,
            processing_complete: false,
            cancelling: false,
            in_flight: None,
            env_input_server_idx: None,
            env_input_vars: Vec::new(),
            env_input_current: 0,
            env_input_buffer: String::new(),
            env_input_values: Vec::new(),
            project_path_buffer: project_dir,
        })
    }

    /// The trees are there, one per file-artifact tab, each well formed.
    pub open spec fn wf(&self) -> bool {
        &&& self.tree_views@.len() == TREE_TABS
        &&& forall|s: int| 0 <= s < TREE_TABS ==> (#[trigger] self.tree_views@[s]).wf()
    }

    /// The tree slot of the current tab, if it lists file artifacts.
    pub open spec fn slot(&self) -> Option<int> {
        if tab_component_type(self.tab) is Some {
            Some(tree_slot(self.tab))
        } else {
            None
        }
    }

    fn tree_index(&self) -> (r: Option<usize>)
        ensures
            r matches Some(s) ==> self.slot() == Some(s as int) && s < TREE_TABS,
            r is None ==> self.slot() is None,
    {
        let i = self.tab.index();
        if i < TREE_TABS {
            Some(i)
        } else {
            None
        }
    }

    /// Chooses the target CLI and starts loading its catalog.
    pub fn select_cli(&mut self, cli: TargetCli, dest_dir: String)
        ensures
            final(self).target_cli == Some(cli),
            final(self).dest_dir == dest_dir,
            final(self).available_tabs@ == tabs_for(cli),
            final(self).tab == tabs_for(cli)[0],
            final(self).current_view == Screen::Loading,
            final(self).tree_views == old(self).tree_views,
    {
        self.target_cli = Some(cli);
        self.dest_dir = dest_dir;
        self.available_tabs = Tab::for_cli(cli);
        self.tab = if self.available_tabs.len() > 0 {
            self.available_tabs[0]
        } else {
            Tab::Skills
        };
        self.current_view = Screen::Loading;
    }

    /// Takes the result of the catalog scan and shows the list.
    pub fn finish_loading(
        &mut self,
        components: Vec<Component>,
        mcp_servers: Vec<McpServer>,
        plugins: Vec<Plugin>,
        current_output_style: Option<String>,
        current_statusline: Option<String>,
    )
        ensures
            final(self).components == components,
            final(self).mcp_servers == mcp_servers,
            final(self).plugins == plugins,
            final(self).current_output_style == current_output_style,
            final(self).current_statusline == current_statusline,
            trees_of(components@, final(self).tree_views@),
            final(self).current_view == Screen::List,
            final(self).wf(),
            old(self).target_cli matches Some(cli) ==> final(self).status_message matches Some(m) && m@
                == "Selected "@ + crate::types::cli_display(cli),
    {
        self.tree_views = build_tree_views(&components);
        self.components = components;
        self.mcp_servers = mcp_servers;
        self.plugins = plugins;
        self.current_output_style = current_output_style;
        self.current_statusline = current_statusline;
        self.current_view = Screen::List;
        if let Some(cli) = self.target_cli {
            let name = cli.display_name();
            self.status_message = Some(concat2("Selected ", name.as_str()));
        }
    }

    /// The artifacts of the current tab, with their positions.
    pub fn current_components(&self) -> (r: Vec<(usize, &Component)>)
        ensures
            r@.map_values(|p: (usize, &Component)| p.0) == (match tab_component_type(self.tab) {
                Some(t) => marked(of_type(self.components@, t)),
                None => Seq::empty(),
            }),
            forall|k: int| 0 <= k < r@.len() ==> (#[trigger] r@[k]).0 < self.components@.len()
                && *r@[k].1 == self.components@[r@[k].0 as int],
    {
        let mut out: Vec<(usize, &Component)> = Vec::new();
        match self.tab.to_component_type() {
            Some(t) => {
                let ghost flags = of_type(self.components@, t);
                let mut i: usize = 0;
                while i < self.components.len()
                    invariant
                        i <= self.components@.len(),
                        flags == of_type(self.components@, t),
                        out@.map_values(|p: (usize, &Component)| p.0) == marked_upto(flags, i as int),
                        forall|k: int| 0 <= k < out@.len() ==> (#[trigger] out@[k]).0 < self.components@.len()
                            && *out@[k].1 == self.components@[out@[k].0 as int],
                    decreases self.components@.len() - i,
                {
                    let ghost before = out@;
                    if self.components[i].component_type == t {
                        out.push((i, &self.components[i]));
                        assert(out@.map_values(|p: (usize, &Component)| p.0) =~= before.map_values(
                            |p: (usize, &Component)| p.0,
                        ).push(i));
                    }
                    i = i + 1;
                }
            },
            None => {
                assert(out@.map_values(|p: (usize, &Component)| p.0) =~= Seq::<usize>::empty());
            },
        }
        out
    }
}


/// The first position of `t` in `s` from `k` on; `-1` if there is none.
pub open spec fn first_from(s: Seq<Tab>, t: Tab, k: int) -> int
    decreases s.len() - k,
{
    if k < 0 || k >= s.len() {
        -1
    } else if s[k] == t {
        k
    } else {
        first_from(s, t, k + 1)
    }
}

/// The artifact index of the leaf under a tree's cursor, if it is on a leaf.
pub open spec fn cursor_leaf(t: TreeView) -> Option<usize> {
    match t.cursor_node() {
        Some(j) => crate::tree::leaf_idx(t.nodes@[j]),
        None => None,
    }
}

/// The name without a trailing `.md`.
pub open spec fn style_name(name: Seq<char>) -> Seq<char> {
    if is_suffix(".md"@, name) {
        name.subrange(0, name.len() - 3)
    } else {
        name
    }
}

pub fn strip_md(name: &str) -> (r: String)
    ensures
        r@ == style_name(name@),
{
    if ends_with_str(name, ".md") {
        proof {
            reveal_strlit(".md");
        }
        let n = name.unicode_len();
        substring(name, 0, n - 3)
    } else {
        owned(name)
    }
}

impl App {
    fn tab_position(&self) -> (r: Option<usize>)
        ensures
            r matches Some(q) ==> q == first_from(self.available_tabs@, self.tab, 0) && q
                < self.available_tabs@.len(),
            r is None ==> first_from(self.available_tabs@, self.tab, 0) == -1,
    {
        let mut q: usize = 0;
        while q < self.available_tabs.len()
            invariant
                q <= self.available_tabs@.len(),
                first_from(self.available_tabs@, self.tab, 0) == first_from(
                    self.available_tabs@,
                    self.tab,
                    q as int,
                ),
            decreases self.available_tabs@.len() - q,
        {
            if self.available_tabs[q] == self.tab {
                return Some(q);
            }
            q = q + 1;
        }
        None
    }

    /// Moves to the next available tab, wrapping around.
    pub fn next_tab(&mut self)
        ensures
            ({
                let q = first_from(old(self).available_tabs@, old(self).tab, 0);
                let n = old(self).available_tabs@.len();
                if q >= 0 {
                    *final(self) == (App {
                        tab: old(self).available_tabs@[(q + 1) % (n as int)],
                        list_index: 0,
                        ..*old(self)
                    })
                } else {
                    *final(self) == *old(self)
                }
            }),
    {
        if let Some(q) = self.tab_position() {
            let n = self.available_tabs.len();
            self.tab = self.available_tabs[(q + 1) % n];
            self.list_index = 0;
        }
    }

    /// Moves to the previous available tab, wrapping around.
    pub fn prev_tab(&mut self)
        ensures
            ({
                let q = first_from(old(self).available_tabs@, old(self).tab, 0);
                let n = old(self).available_tabs@.len();
                if q >= 0 {
                    *final(self) == (App {
                        tab: old(self).available_tabs@[if q == 0 { n - 1 } else { q - 1 }],
                        list_index: 0,
                        ..*old(self)
                    })
                } else {
                    *final(self) == *old(self)
                }
            }),
    {
        if let Some(q) = self.tab_position() {
            let n = self.available_tabs.len();
            let p = if q == 0 {
                n - 1
            } else {
                q - 1
            };
            self.tab = self.available_tabs[p];
            self.list_index = 0;
        }
    }

    /// Jumps to the available tab at `idx`, if there is one.
    pub fn set_tab(&mut self, idx: usize)
        ensures
            idx < old(self).available_tabs@.len() ==> *final(self) == (App {
                tab: old(self).available_tabs@[idx as int],
                list_index: 0,
                ..*old(self)
            }),
            idx >= old(self).available_tabs@.len() ==> *final(self) == *old(self),
    {
        if idx < self.available_tabs.len() {
            self.tab = self.available_tabs[idx];
            self.list_index = 0;
        }
    }

    /// Moves the cursor of the current tab down, wrapping around.
    pub fn next_item(&mut self)
        requires
            old(self).wf(),
        ensures
            final(self).wf(),
            old(self).tab == Tab::McpServers ==> *final(self) == (App {
                mcp_index: if old(self).mcp_servers@.len() > 0 {
                    ((old(self).mcp_index + 1) % (old(self).mcp_servers@.len() as int)) as usize
                } else {
                    old(self).mcp_index
                },
                ..*old(self)
            }),
            old(self).tab == Tab::Plugins ==> *final(self) == (App {
                plugin_index: if old(self).plugins@.len() > 0 {
                    ((old(self).plugin_index + 1) % (old(self).plugins@.len() as int)) as usize
                } else {
                    old(self).plugin_index
                },
                ..*old(self)
            }),
            old(self).slot() matches Some(s) ==> Self::tree_changed(*old(self), *final(self), s)
                && TreeView::next_post(old(self).tree_views@[s], final(self).tree_views@[s]),
    {
        if self.tab == Tab::McpServers {
            let len = self.mcp_servers.len();
            if len > 0 {
                self.mcp_index = (self.mcp_index % len + 1) % len;
                proof { lemma_mod_succ(old(self).mcp_index as int, len as int); }
            }
        } else if self.tab == Tab::Plugins {
            let len = self.plugins.len();
            if len > 0 {
                self.plugin_index = (self.plugin_index % len + 1) % len;
                proof { lemma_mod_succ(old(self).plugin_index as int, len as int); }
            }
        } else if let Some(s) = self.tree_index() {
            self.tree_views[s].next();
        }
    }

    /// Moves the cursor of the current tab up, wrapping around.
    pub fn prev_item(&mut self)
        requires
            old(self).wf(),
        ensures
            final(self).wf(),
            old(self).tab == Tab::McpServers ==> *final(self) == (App {
                mcp_index: if old(self).mcp_servers@.len() > 0 {
                    if old(self).mcp_index == 0 {
                        (old(self).mcp_servers@.len() - 1) as usize
                    } else {
                        (old(self).mcp_index - 1) as usize
                    }
                } else {
                    old(self).mcp_index
                },
                ..*old(self)
            }),
            old(self).tab == Tab::Plugins ==> *final(self) == (App {
                plugin_index: if old(self).plugins@.len() > 0 {
                    if old(self).plugin_index == 0 {
                        (old(self).plugins@.len() - 1) as usize
                    } else {
                        (old(self).plugin_index - 1) as usize
                    }
                } else {
                    old(self).plugin_index
                },
                ..*old(self)
            }),
            old(self).slot() matches Some(s) ==> Self::tree_changed(*old(self), *final(self), s)
                && TreeView::prev_post(old(self).tree_views@[s], final(self).tree_views@[s]),
    {
        if self.tab == Tab::McpServers {
            let len = self.mcp_servers.len();
            if len > 0 {
                self.mcp_index = if self.mcp_index == 0 {
                    len - 1
                } else {
                    self.mcp_index - 1
                };
            }
        } else if self.tab == Tab::Plugins {
            let len = self.plugins.len();
            if len > 0 {
                self.plugin_index = if self.plugin_index == 0 {
                    len - 1
                } else {
                    self.plugin_index - 1
                };
            }
        } else if let Some(s) = self.tree_index() {
            self.tree_views[s].prev();
        }
    }

    /// Only tree `s` changed.
    pub open spec fn tree_changed(o: App, f: App, s: int) -> bool {
        &&& f.tree_views@ == o.tree_views@.update(s, f.tree_views@[s])
        &&& f == (App { tree_views: f.tree_views, ..o })
    }

    /// The artifact under the cursor of the current tab.
    pub fn selected_component_index(&self) -> (r: Option<usize>)
        requires
            self.wf(),
        ensures
            r == (match self.slot() {
                Some(s) => cursor_leaf(self.tree_views@[s]),
                None => None,
            }),
    {
        match self.tree_index() {
            Some(s) => self.tree_views[s].current_component_idx(),
            None => None,
        }
    }

    pub fn is_cursor_on_folder(&self) -> (r: bool)
        requires
            self.wf(),
        ensures
            r == (self.slot() matches Some(s) && self.tree_views@[s].cursor_node() matches Some(j)
                && self.tree_views@[s].nodes@[j] is Folder),
    {
        match self.tree_index() {
            Some(s) => self.tree_views[s].is_on_folder(),
            None => false,
        }
    }

    pub fn is_current_folder_expanded(&self) -> (r: bool)
        requires
            self.wf(),
        ensures
            r == (self.slot() matches Some(s) && self.tree_views@[s].cursor_node() matches Some(j)
                && crate::tree::is_open_folder(self.tree_views@[s].nodes@[j])),
    {
        match self.tree_index() {
            Some(s) => self.tree_views[s].is_current_folder_expanded(),
            None => false,
        }
    }

    pub fn toggle_folder_expand(&mut self)
        requires
            old(self).wf(),
        ensures
            final(self).wf(),
            old(self).slot() matches Some(s) ==> Self::tree_changed(*old(self), *final(self), s)
                && TreeView::toggle_expand_post(old(self).tree_views@[s], final(self).tree_views@[s]),
            old(self).slot() is None ==> *final(self) == *old(self),
    {
        if let Some(s) = self.tree_index() {
            self.tree_views[s].toggle_expand();
        }
    }

    pub fn expand_folder(&mut self)
        requires
            old(self).wf(),
        ensures
            final(self).wf(),
            old(self).slot() matches Some(s) ==> Self::tree_changed(*old(self), *final(self), s)
                && TreeView::expand_post(old(self).tree_views@[s], final(self).tree_views@[s]),
            old(self).slot() is None ==> *final(self) == *old(self),
    {
        if let Some(s) = self.tree_index() {
            self.tree_views[s].expand();
        }
    }

    pub fn collapse_folder(&mut self)
        requires
            old(self).wf(),
        ensures
            final(self).wf(),
            old(self).slot() matches Some(s) ==> Self::tree_changed(*old(self), *final(self), s)
                && TreeView::collapse_post(old(self).tree_views@[s], final(self).tree_views@[s]),
            old(self).slot() is None ==> *final(self) == *old(self),
    {
        if let Some(s) = self.tree_index() {
            self.tree_views[s].collapse();
        }
    }

    pub fn collapse_parent_folder(&mut self)
        requires
            old(self).wf(),
        ensures
            final(self).wf(),
            old(self).slot() matches Some(s) ==> Self::tree_changed(*old(self), *final(self), s)
                && TreeView::collapse_parent_post(old(self).tree_views@[s], final(self).tree_views@[s]),
            old(self).slot() is None ==> *final(self) == *old(self),
    {
        if let Some(s) = self.tree_index() {
            self.tree_views[s].collapse_parent();
        }
    }

    pub fn get_tree_view(&self) -> (r: Option<&TreeView>)
        ensures
            r matches Some(t) ==> self.slot() matches Some(s) && s < self.tree_views@.len() && *t
                == self.tree_views@[s],
            r is None ==> self.slot() is None || self.tree_views@.len() <= tree_slot(self.tab),
    {
        match self.tree_index() {
            Some(s) => if s < self.tree_views.len() {
                Some(&self.tree_views[s])
            } else {
                None
            },
            None => None,
        }
    }

    pub fn env_input_char(&mut self, c: char)
        ensures
            final(self).env_input_buffer@ == old(self).env_input_buffer@.push(c),
            *final(self) == (App { env_input_buffer: final(self).env_input_buffer, ..*old(self) }),
    {
        push_char(&mut self.env_input_buffer, c);
    }

    pub fn env_input_backspace(&mut self)
        ensures
            final(self).env_input_buffer@ == if old(self).env_input_buffer@.len() > 0 {
                old(self).env_input_buffer@.drop_last()
            } else {
                old(self).env_input_buffer@
            },
            *final(self) == (App { env_input_buffer: final(self).env_input_buffer, ..*old(self) }),
    {
        let _ = pop_char(&mut self.env_input_buffer);
    }

    /// Opens the prompt for the secrets that server `server_idx` still needs.
    pub fn start_env_input(&mut self, server_idx: usize, missing_vars: Vec<String>)
        ensures
            final(self).env_input_server_idx == Some(server_idx),
            final(self).env_input_vars == missing_vars,
            final(self).env_input_current == 0,
            final(self).env_input_buffer@.len() == 0,
            final(self).env_input_values@.len() == 0,
            final(self).current_view == Screen::EnvInput,
            *final(self) == (App {
                env_input_server_idx: Some(server_idx),
                env_input_vars: final(self).env_input_vars,
                env_input_current: 0,
                env_input_buffer: final(self).env_input_buffer,
                env_input_values: final(self).env_input_values,
                current_view: Screen::EnvInput,
                ..*old(self)
            }),
    {
        self.env_input_server_idx = Some(server_idx);
        self.env_input_vars = missing_vars;
        self.env_input_current = 0;
        clear_string(&mut self.env_input_buffer);
        self.env_input_values.clear();
        self.current_view = Screen::EnvInput;
    }

    /// Records the typed secret; once every secret is in, installation starts.
    /// An empty entry is not accepted.
    pub fn env_input_submit(&mut self)
        requires
            old(self).env_input_buffer@.len() > 0 ==> old(self).env_input_current
                < old(self).env_input_vars@.len(),
        ensures
            old(self).env_input_buffer@.len() == 0 ==> *final(self) == *old(self),
            old(self).env_input_buffer@.len() > 0 ==> {
                &&& final(self).env_input_values@.len() == old(self).env_input_values@.len() + 1
                &&& final(self).env_input_values@.last().0@ == old(self).env_input_vars@[old(
                    self,
                ).env_input_current as int]@
                &&& final(self).env_input_values@.last().1@ == old(self).env_input_buffer@
                &&& final(self).env_input_values@.drop_last() == old(self).env_input_values@
                &&& final(self).env_input_buffer@.len() == 0
                &&& final(self).env_input_current == old(self).env_input_current + 1
                &&& final(self).env_input_current >= old(self).env_input_vars@.len() ==> (
                    final(self).current_view == Screen::Installing && !final(self).is_removing
                        && final(self).processing_total == Some(old(self).processing_queue@.len() as usize)
                        && final(self).processing_progress == Some(0usize))
                &&& final(self).env_input_current < old(self).env_input_vars@.len()
                    ==> final(self).current_view == old(self).current_view
                &&& final(self).processing_queue == old(self).processing_queue
                &&& final(self).tree_views == old(self).tree_views
                &&& final(self).in_flight == old(self).in_flight
            },
    {
        if self.env_input_buffer.as_str().unicode_len() == 0 {
            return;
        }
        let cur = self.env_input_current;
        let nvars = self.env_input_vars.len();
        assert(cur < nvars);
        let var_name = owned(self.env_input_vars[cur].as_str());
        let value = owned(self.env_input_buffer.as_str());
        self.env_input_values.push((var_name, value));
        clear_string(&mut self.env_input_buffer);
        self.env_input_current = cur + 1;
        if self.env_input_current >= self.env_input_vars.len() {
            self.continue_mcp_install();
        }
    }

    /// Leaves the secret prompt without installing anything.
    pub fn env_input_cancel(&mut self)
        ensures
            final(self).env_input_server_idx is None,
            final(self).env_input_vars@.len() == 0,
            final(self).env_input_values@.len() == 0,
            final(self).env_input_buffer@.len() == 0,
            final(self).processing_queue@.len() == 0,
            final(self).current_view == Screen::List,
            *final(self) == (App {
                env_input_server_idx: None,
                env_input_vars: final(self).env_input_vars,
                env_input_values: final(self).env_input_values,
                env_input_buffer: final(self).env_input_buffer,
                processing_queue: final(self).processing_queue,
                current_view: Screen::List,
                ..*old(self)
            }),
    {
        self.env_input_server_idx = None;
        self.env_input_vars.clear();
        self.env_input_values.clear();
        clear_string(&mut self.env_input_buffer);
        self.processing_queue.clear();
        self.current_view = Screen::List;
    }

    /// The name of the secret being asked for.
    pub fn current_env_var(&self) -> (r: Option<&str>)
        ensures
            r matches Some(v) ==> self.env_input_current < self.env_input_vars@.len() && v@
                == self.env_input_vars@[self.env_input_current as int]@,
            r is None ==> self.env_input_current >= self.env_input_vars@.len(),
    {
        if self.env_input_current < self.env_input_vars.len() {
            Some(self.env_input_vars[self.env_input_current].as_str())
        } else {
            None
        }
    }

    /// The name of the server whose secrets are being asked for.
    pub fn current_env_server_name(&self) -> (r: Option<&str>)
        ensures
            r matches Some(v) ==> self.env_input_server_idx matches Some(i) && i
                < self.mcp_servers@.len() && v@ == self.mcp_servers@[i as int].def.name@,
            r is None ==> !(self.env_input_server_idx matches Some(i) && i < self.mcp_servers@.len()),
    {
        match self.env_input_server_idx {
            Some(i) => if i < self.mcp_servers.len() {
                Some(self.mcp_servers[i].def.name.as_str())
            } else {
                None
            },
            None => None,
        }
    }

    /// Switches the MCP scope; choosing the local scope asks for a project path.
    pub fn toggle_mcp_scope(&mut self)
        ensures
            final(self).mcp_scope != old(self).mcp_scope,
            final(self).mcp_scope == McpScope::Local ==> final(self).current_view == Screen::ProjectPath
                && final(self).project_path_buffer@ == old(self).mcp_project_path@,
            final(self).mcp_scope == McpScope::User ==> final(self).current_view == old(self).current_view,
            final(self).mcp_scope == McpScope::User ==> (final(self).status_message matches Some(m)
                && m@ == "MCP scope: "@ + scope_label(final(self).mcp_scope)),
            final(self).tree_views == old(self).tree_views,
            final(self).mcp_project_path == old(self).mcp_project_path,
    {
        self.mcp_scope = self.mcp_scope.toggle();
        if self.mcp_scope == McpScope::Local {
            self.project_path_buffer = owned(self.mcp_project_path.as_str());
            self.current_view = Screen::ProjectPath;
        } else {
            self.status_message = Some(concat2("MCP scope: ", self.mcp_scope.display()));
        }
    }

    pub fn project_path_char(&mut self, c: char)
        ensures
            final(self).project_path_buffer@ == old(self).project_path_buffer@.push(c),
            *final(self) == (App { project_path_buffer: final(self).project_path_buffer, ..*old(self) }),
    {
        push_char(&mut self.project_path_buffer, c);
    }

    pub fn project_path_backspace(&mut self)
        ensures
            final(self).project_path_buffer@ == if old(self).project_path_buffer@.len() > 0 {
                old(self).project_path_buffer@.drop_last()
            } else {
                old(self).project_path_buffer@
            },
            *final(self) == (App { project_path_buffer: final(self).project_path_buffer, ..*old(self) }),
    {
        let _ = pop_char(&mut self.project_path_buffer);
    }

    /// Accepts the typed project path, unless it is empty, and returns to the list.
    pub fn project_path_submit(&mut self)
        ensures
            final(self).current_view == Screen::List,
            old(self).project_path_buffer@.len() > 0 ==> final(self).mcp_project_path@
                == old(self).project_path_buffer@,
            old(self).project_path_buffer@.len() > 0 ==> (final(self).status_message matches Some(m) && m@
                == "MCP scope: local ("@ + old(self).project_path_buffer@ + ")"@),
            old(self).project_path_buffer@.len() == 0 ==> final(self).mcp_project_path
                == old(self).mcp_project_path && final(self).status_message
                == old(self).status_message,
            final(self).mcp_scope == old(self).mcp_scope,
            final(self).tree_views == old(self).tree_views,
    {
        if self.project_path_buffer.as_str().unicode_len() > 0 {
            self.mcp_project_path = owned(self.project_path_buffer.as_str());
            self.status_message = Some(concat3("MCP scope: local (", self.mcp_project_path.as_str(), ")"));
        }
        self.current_view = Screen::List;
    }

    /// Gives up on the local scope: back to the user scope and the list.
    pub fn project_path_cancel(&mut self)
        ensures
            final(self).mcp_scope == McpScope::User,
            final(self).current_view == Screen::List,
            final(self).status_message matches Some(m) && m@ == "MCP scope: user"@,
            final(self).mcp_project_path == old(self).mcp_project_path,
            final(self).tree_views == old(self).tree_views,
    {
        self.mcp_scope = McpScope::User;
        self.status_message = Some(owned("MCP scope: user"));
        self.current_view = Screen::List;
    }

    /// The selection flags are `flags`; every other field of every artifact is kept.
    pub open spec fn selection_is(o: Seq<Component>, f: Seq<Component>, flags: Seq<bool>) -> bool {
        &&& f.len() == o.len()
        &&& flags.len() == o.len()
        &&& forall|i: int| 0 <= i < o.len() ==> #[trigger] f[i] == (Component { selected: flags[i], ..o[i] })
    }

    fn all_selected_at(&self, indices: &Vec<usize>) -> (r: bool)
        ensures
            r == all_flagged(selection_flags(self.components@), indices@),
    {
        if indices.len() == 0 {
            return false;
        }
        let mut k: usize = 0;
        while k < indices.len()
            invariant
                k <= indices@.len(),
                flagged_upto(selection_flags(self.components@), indices@, k as int),
            decreases indices@.len() - k,
        {
            let c = indices[k];
            if c >= self.components.len() || !self.components[c].selected {
                proof {
                    lemma_flagged_upto(selection_flags(self.components@), indices@, indices@.len() as int);
                }
                return false;
            }
            k = k + 1;
        }
        true
    }

    /// Applies the all-or-nothing toggle to the leaves under the folder at the cursor.
    fn toggle_folder_selection(&mut self)
        requires
            old(self).wf(),
            old(self).slot() matches Some(s) && old(self).tree_views@[s].cursor_node() is Some,
        ensures
            final(self).wf(),
            ({
                let s = old(self).slot()->0;
                let t = old(self).tree_views@[s];
                let idx = leaves_node(t.nodes@, t.cursor_node()->0);
                &&& Self::selection_is(
                    old(self).components@,
                    final(self).components@,
                    if idx.len() == 0 {
                        selection_flags(old(self).components@)
                    } else {
                        folder_toggle(selection_flags(old(self).components@), idx)
                    },
                )
                &&& *final(self) == (App { components: final(self).components, ..*old(self) })
            }),
    {
        let s = self.tree_index().unwrap();
        let node_idx = self.tree_views[s].current_node_idx().unwrap();
        proof {
            let t = self.tree_views@[s as int];
            crate::tree::lemma_vis_list_in_range(t.nodes@, t.root_children@, -1, t.root_children@.len() as int);
        }
        let indices = self.tree_views[s].get_folder_component_indices(node_idx);
        let ghost flags = selection_flags(self.components@);
        if indices.len() == 0 {
            assert(Self::selection_is(old(self).components@, self.components@, flags));
            return;
        }
        let all = self.all_selected_at(&indices);
        let new_state = !all;
        let ghost target = set_flags(flags, indices@, new_state);
        let mut k: usize = 0;
        while k < indices.len()
            invariant
                k <= indices@.len(),
                self.tree_views == old(self).tree_views,
                *self == (App { components: self.components, ..*old(self) }),
                target == set_flags(flags, indices@, new_state),
                flags == selection_flags(old(self).components@),
                Self::selection_is(
                    old(self).components@,
                    self.components@,
                    Seq::new(flags.len(), |i: int| if lists(indices@.subrange(0, k as int), i) { new_state } else { flags[i] }),
                ),
            decreases indices@.len() - k,
        {
            let c = indices[k];
            let ghost sub = indices@.subrange(0, k as int);
            let ghost sub2 = indices@.subrange(0, k + 1);
            assert forall|i: int| lists(sub2, i) <==> (lists(sub, i) || i == c as int) by {
                if lists(sub2, i) {
                    let t = choose|t: int| 0 <= t < sub2.len() && sub2[t] as int == i;
                    if t < k {
                        assert(sub[t] == sub2[t]);
                    }
                }
                if lists(sub, i) {
                    let t = choose|t: int| 0 <= t < sub.len() && sub[t] as int == i;
                    assert(sub2[t] == sub[t]);
                }
                if i == c as int {
                    assert(sub2[k as int] == c);
                }
            }
            if c < self.components.len() {
                self.components[c].selected = new_state;
            }
            k = k + 1;
        }
        assert(indices@.subrange(0, indices@.len() as int) =~= indices@);
        assert(Seq::new(flags.len(), |i: int| if lists(indices@.subrange(0, indices@.len() as int), i) { new_state } else { flags[i] }) =~= target);
    }

    /// Flips the selection of the item under the cursor; on a folder, the
    /// all-or-nothing toggle of its leaves.
    pub fn toggle_selected(&mut self)
        requires
            old(self).wf(),
        ensures
            final(self).wf(),
            old(self).tab == Tab::McpServers ==> final(self).mcp_servers@.len() == old(self).mcp_servers@.len()
                && (old(self).mcp_index < old(self).mcp_servers@.len() ==> mcp_flags(final(self).mcp_servers@)
                == mcp_flags(old(self).mcp_servers@).update(old(self).mcp_index as int, !old(self).mcp_servers@[old(self).mcp_index as int].selected)),
            old(self).tab == Tab::Plugins ==> final(self).plugins@.len() == old(self).plugins@.len()
                && (old(self).plugin_index < old(self).plugins@.len() ==> plugin_flags(final(self).plugins@)
                == plugin_flags(old(self).plugins@).update(old(self).plugin_index as int, !old(self).plugins@[old(self).plugin_index as int].selected)),
            old(self).slot() matches Some(s) ==> ({
                let t = old(self).tree_views@[s];
                let flags = selection_flags(old(self).components@);
                Self::selection_is(old(self).components@, final(self).components@, match t.cursor_node() {
                    Some(j) => if t.nodes@[j] is Folder {
                        let idx = leaves_node(t.nodes@, j);
                        if idx.len() == 0 { flags } else { folder_toggle(flags, idx) }
                    } else {
                        match crate::tree::leaf_idx(t.nodes@[j]) {
                            Some(c) => if c < flags.len() { flags.update(c as int, !flags[c as int]) } else { flags },
                            None => flags,
                        }
                    },
                    None => flags,
                }) && *final(self) == (App { components: final(self).components, ..*old(self) })
            }),
    {
        if self.tab == Tab::McpServers {
            let i = self.mcp_index;
            if i < self.mcp_servers.len() {
                let v = !self.mcp_servers[i].selected;
                self.mcp_servers[i].selected = v;
                assert(mcp_flags(self.mcp_servers@) =~= mcp_flags(old(self).mcp_servers@).update(i as int, v));
            }
        } else if self.tab == Tab::Plugins {
            let i = self.plugin_index;
            if i < self.plugins.len() {
                let v = !self.plugins[i].selected;
                self.plugins[i].selected = v;
                assert(plugin_flags(self.plugins@) =~= plugin_flags(old(self).plugins@).update(i as int, v));
            }
        } else if self.is_cursor_on_folder() {
            self.toggle_folder_selection();
        } else if let Some(c) = self.selected_component_index() {
            if c < self.components.len() {
                let v = !self.components[c].selected;
                self.components[c].selected = v;
            }
            assert(Self::selection_is(old(self).components@, self.components@, {
                let flags = selection_flags(old(self).components@);
                if c < flags.len() { flags.update(c as int, !flags[c as int]) } else { flags }
            }));
        } else {
            assert(Self::selection_is(old(self).components@, self.components@, selection_flags(old(self).components@)));
        }
    }

    /// Sets the selection of every item of the current tab to `v`.
    fn set_all(&mut self, v: bool)
        requires
            old(self).wf(),
        ensures
            final(self).wf(),
            old(self).tab == Tab::McpServers ==> final(self).mcp_servers@.len() == old(self).mcp_servers@.len()
                && forall|i: int| 0 <= i < old(self).mcp_servers@.len() ==> #[trigger] final(self).mcp_servers@[i]
                == (McpServer { selected: v, ..old(self).mcp_servers@[i] }),
            old(self).tab == Tab::Plugins ==> final(self).plugins@.len() == old(self).plugins@.len()
                && forall|i: int| 0 <= i < old(self).plugins@.len() ==> #[trigger] final(self).plugins@[i]
                == (Plugin { selected: v, ..old(self).plugins@[i] }),
            tab_component_type(old(self).tab) matches Some(t) ==> Self::selection_is(
                old(self).components@,
                final(self).components@,
                Seq::new(old(self).components@.len(), |i: int| if old(self).components@[i].component_type == t { v } else { old(self).components@[i].selected }),
            ),
            final(self).tree_views == old(self).tree_views,
    {
        if self.tab == Tab::McpServers {
            let mut i: usize = 0;
            while i < self.mcp_servers.len()
                invariant
                    i <= self.mcp_servers@.len(),
                    self.mcp_servers@.len() == old(self).mcp_servers@.len(),
                    self.tree_views == old(self).tree_views,
                    self.tab == old(self).tab,
                    forall|j: int| 0 <= j < self.mcp_servers@.len() ==> #[trigger] self.mcp_servers@[j]
                        == if j < i { (McpServer { selected: v, ..old(self).mcp_servers@[j] }) } else { old(self).mcp_servers@[j] },
                decreases self.mcp_servers@.len() - i,
            {
                self.mcp_servers[i].selected = v;
                i = i + 1;
            }
        } else if self.tab == Tab::Plugins {
            let mut i: usize = 0;
            while i < self.plugins.len()
                invariant
                    i <= self.plugins@.len(),
                    self.plugins@.len() == old(self).plugins@.len(),
                    self.tree_views == old(self).tree_views,
                    self.tab == old(self).tab,
                    forall|j: int| 0 <= j < self.plugins@.len() ==> #[trigger] self.plugins@[j]
                        == if j < i { (Plugin { selected: v, ..old(self).plugins@[j] }) } else { old(self).plugins@[j] },
                decreases self.plugins@.len() - i,
            {
                self.plugins[i].selected = v;
                i = i + 1;
            }
        } else if let Some(t) = self.tab.to_component_type() {
            let mut i: usize = 0;
            while i < self.components.len()
                invariant
                    i <= self.components@.len(),
                    self.components@.len() == old(self).components@.len(),
                    self.tree_views == old(self).tree_views,
                    self.tab == old(self).tab,
                    forall|j: int| 0 <= j < self.components@.len() ==> #[trigger] self.components@[j]
                        == if j < i && old(self).components@[j].component_type == t {
                            (Component { selected: v, ..old(self).components@[j] })
                        } else {
                            old(self).components@[j]
                        },
                decreases self.components@.len() - i,
            {
                if self.components[i].component_type == t {
                    self.components[i].selected = v;
                }
                i = i + 1;
            }
        }
    }

    /// Selects every item of the current tab.
    pub fn select_all(&mut self)
        requires
            old(self).wf(),
        ensures
            final(self).wf(),
            old(self).tab == Tab::McpServers ==> final(self).mcp_servers@.len() == old(self).mcp_servers@.len()
                && forall|i: int| 0 <= i < old(self).mcp_servers@.len() ==> #[trigger] final(self).mcp_servers@[i]
                == (McpServer { selected: true, ..old(self).mcp_servers@[i] }),
            old(self).tab == Tab::Plugins ==> final(self).plugins@.len() == old(self).plugins@.len()
                && forall|i: int| 0 <= i < old(self).plugins@.len() ==> #[trigger] final(self).plugins@[i]
                == (Plugin { selected: true, ..old(self).plugins@[i] }),
            tab_component_type(old(self).tab) matches Some(t) ==> Self::selection_is(
                old(self).components@,
                final(self).components@,
                Seq::new(old(self).components@.len(), |i: int| if old(self).components@[i].component_type == t { true } else { old(self).components@[i].selected }),
            ),
    {
        self.set_all(true);
    }

    /// Deselects every item of the current tab.
    pub fn deselect_all(&mut self)
        requires
            old(self).wf(),
        ensures
            final(self).wf(),
            old(self).tab == Tab::McpServers ==> final(self).mcp_servers@.len() == old(self).mcp_servers@.len()
                && forall|i: int| 0 <= i < old(self).mcp_servers@.len() ==> #[trigger] final(self).mcp_servers@[i]
                == (McpServer { selected: false, ..old(self).mcp_servers@[i] }),
            old(self).tab == Tab::Plugins ==> final(self).plugins@.len() == old(self).plugins@.len()
                && forall|i: int| 0 <= i < old(self).plugins@.len() ==> #[trigger] final(self).plugins@[i]
                == (Plugin { selected: false, ..old(self).plugins@[i] }),
            tab_component_type(old(self).tab) matches Some(t) ==> Self::selection_is(
                old(self).components@,
                final(self).components@,
                Seq::new(old(self).components@.len(), |i: int| if old(self).components@[i].component_type == t { false } else { old(self).components@[i].selected }),
            ),
    {
        self.set_all(false);
    }
}


proof fn lemma_mod_succ(a: int, n: int)
    requires
        a >= 0,
        n > 0,
    ensures
        ((a % n) + 1) % n == (a + 1) % n,
{
    vstd::arithmetic::div_mod::lemma_add_mod_noop(a, 1, n);
    vstd::arithmetic::div_mod::lemma_mod_twice(a, n);
    vstd::arithmetic::div_mod::lemma_add_mod_noop(a % n, 1, n);
}

/// What the processing view does next.
#[derive(Clone, Copy, Debug, PartialEq, Eq, Structural)]
pub enum DispatchStep {
    /// An item is in flight: poll its completion channel.
    AwaitCompletion,
    /// Nothing in flight and the queue is not empty: start its head.
    Dispatch,
    /// The queue is done: start the refresh scan.
    StartRefresh,
    /// The refresh scan runs: poll it.
    AwaitRefresh,
    /// Nothing to do.
    Idle,
}

/// An item of the queue made self-contained, ready for the execution thread.
#[derive(Clone, Debug)]
pub enum WorkItem {
    Component {
        component: Component,
        source_dir: String,
        dest_dir: String,
    },
    McpServer {
        server: McpServer,
        scope: McpScope,
        project_path: Option<String>,
        env_values: Vec<(String, String)>,
    },
    Plugin {
        plugin: Plugin,
    },
}

/// How the execution thread's work on one item ended.
#[derive(Clone, Debug)]
pub enum StepReport {
    /// A log line to record, `[OK] ...` or `[ERR] ...`.
    Done(String),
    /// The external command failed, timed out or was cancelled.
    Failed(crate::runner::RunOutcome),
    /// The thread went away without a result.
    Crashed,
}

pub open spec fn starting_line(removing: bool, n: nat) -> Seq<char> {
    if removing {
        "Starting removal of "@ + crate::text::decimal(n) + " items..."@
    } else {
        "Starting installation of "@ + crate::text::decimal(n) + " items..."@
    }
}

fn copy_strings(v: &Vec<String>) -> (r: Vec<String>)
    ensures
        r@.len() == v@.len(),
        forall|i: int| 0 <= i < v@.len() ==> (#[trigger] r@[i])@ == v@[i]@,
{
    let mut out: Vec<String> = Vec::new();
    let mut i: usize = 0;
    while i < v.len()
        invariant
            i <= v@.len(),
            out@.len() == i,
            forall|k: int| 0 <= k < i ==> (#[trigger] out@[k])@ == v@[k]@,
        decreases v@.len() - i,
    {
        out.push(owned(v[i].as_str()));
        i = i + 1;
    }
    out
}

fn copy_pairs(v: &Vec<(String, String)>) -> (r: Vec<(String, String)>)
    ensures
        r@.len() == v@.len(),
        forall|i: int| 0 <= i < v@.len() ==> (#[trigger] r@[i]).0@ == v@[i].0@ && r@[i].1@ == v@[i].1@,
{
    let mut out: Vec<(String, String)> = Vec::new();
    let mut i: usize = 0;
    while i < v.len()
        invariant
            i <= v@.len(),
            out@.len() == i,
            forall|k: int| 0 <= k < i ==> (#[trigger] out@[k]).0@ == v@[k].0@ && out@[k].1@ == v@[k].1@,
        decreases v@.len() - i,
    {
        out.push((owned(v[i].0.as_str()), owned(v[i].1.as_str())));
        i = i + 1;
    }
    out
}

pub(crate) fn copy_opt(o: &Option<String>) -> (r: Option<String>)
    ensures
        crate::validation::opt_view(r) == crate::validation::opt_view(*o),
{
    match o {
        Some(s) => Some(owned(s.as_str())),
        None => None,
    }
}

/// Copies of the library's records that keep every field's contents.
pub open spec fn same_def(a: crate::mcp::McpServerDef, b: crate::mcp::McpServerDef) -> bool {
    &&& a.name@ == b.name@
    &&& a.description@ == b.description@
    &&& a.server_type == b.server_type
    &&& crate::validation::opt_view(a.command) == crate::validation::opt_view(b.command)
    &&& crate::validation::opt_view(a.url) == crate::validation::opt_view(b.url)
    &&& a.category@ == b.category@
    &&& a.env@.len() == b.env@.len()
    &&& forall|i: int| 0 <= i < a.env@.len() ==> (#[trigger] a.env@[i])@ == b.env@[i]@
}

pub open spec fn same_plugin_def(a: crate::plugin::PluginDef, b: crate::plugin::PluginDef) -> bool {
    &&& a.name@ == b.name@
    &&& a.marketplace@ == b.marketplace@
    &&& a.source@ == b.source@
    &&& crate::validation::opt_view(a.comment) == crate::validation::opt_view(b.comment)
}

pub open spec fn same_hook(a: Option<crate::component::HookConfig>, b: Option<crate::component::HookConfig>) -> bool {
    match (a, b) {
        (Some(x), Some(y)) => x.name@ == y.name@ && x.event@ == y.event@ && x.hook_type@ == y.hook_type@
            && x.timeout == y.timeout && crate::validation::opt_view(x.description)
            == crate::validation::opt_view(y.description),
        (None, None) => true,
        _ => false,
    }
}

pub open spec fn same_component(a: Component, b: Component) -> bool {
    &&& a.component_type == b.component_type
    &&& a.name@ == b.name@
    &&& a.source_path@ == b.source_path@
    &&& a.dest_path@ == b.dest_path@
    &&& a.selected == b.selected
    &&& a.status == b.status
    &&& same_hook(a.hook_config, b.hook_config)
}

pub(crate) fn copy_def(d: &crate::mcp::McpServerDef) -> (r: crate::mcp::McpServerDef)
    ensures
        same_def(r, *d),
{
    crate::mcp::McpServerDef {
        name: owned(d.name.as_str()),
        description: owned(d.description.as_str()),
        server_type: d.server_type,
        command: copy_opt(&d.command),
        url: copy_opt(&d.url),
        category: owned(d.category.as_str()),
        env: copy_strings(&d.env),
    }
}

fn copy_plugin_def(d: &crate::plugin::PluginDef) -> (r: crate::plugin::PluginDef)
    ensures
        same_plugin_def(r, *d),
{
    crate::plugin::PluginDef {
        name: owned(d.name.as_str()),
        marketplace: owned(d.marketplace.as_str()),
        source: owned(d.source.as_str()),
        comment: copy_opt(&d.comment),
    }
}

fn copy_component(c: &Component) -> (r: Component)
    ensures
        same_component(r, *c),
{
    let hook_config = match &c.hook_config {
        Some(h) => Some(
            crate::component::HookConfig {
                name: owned(h.name.as_str()),
                event: owned(h.event.as_str()),
                hook_type: owned(h.hook_type.as_str()),
                timeout: h.timeout,
                description: copy_opt(&h.description),
            },
        ),
        None => None,
    };
    Component {
        component_type: c.component_type,
        name: owned(c.name.as_str()),
        source_path: owned(c.source_path.as_str()),
        dest_path: owned(c.dest_path.as_str()),
        selected: c.selected,
        status: c.status,
        hook_config,
    }
}

impl App {
    /// The indices of the selected items of the current tab, in list order.
    pub open spec fn selected_queue(&self) -> Seq<usize> {
        if self.tab == Tab::McpServers {
            marked(mcp_flags(self.mcp_servers@))
        } else if self.tab == Tab::Plugins {
            marked(plugin_flags(self.plugins@))
        } else {
            match tab_component_type(self.tab) {
                Some(t) => marked(selected_of_type(self.components@, t)),
                None => Seq::empty(),
            }
        }
    }

    /// The number of items of the list that the current tab shows.
    pub open spec fn tab_len(&self) -> nat {
        if self.tab == Tab::McpServers {
            self.mcp_servers@.len()
        } else if self.tab == Tab::Plugins {
            self.plugins@.len()
        } else {
            self.components@.len()
        }
    }

    /// Every queued index points into the list of the current tab.
    pub open spec fn queue_ok(&self) -> bool {
        forall|k: int| 0 <= k < self.processing_queue@.len() ==> (#[trigger] self.processing_queue@[k]) < self.tab_len()
    }

    fn selected_items(&self) -> (r: Vec<usize>)
        ensures
            r@ == self.selected_queue(),
            forall|k: int| 0 <= k < r@.len() ==> (#[trigger] r@[k]) < self.tab_len(),
    {
        let mut out: Vec<usize> = Vec::new();
        if self.tab == Tab::McpServers {
            let mut i: usize = 0;
            while i < self.mcp_servers.len()
                invariant
                    i <= self.mcp_servers@.len(),
                    self.tab == Tab::McpServers,
                    out@ == marked_upto(mcp_flags(self.mcp_servers@), i as int),
                    forall|k: int| 0 <= k < out@.len() ==> (#[trigger] out@[k]) < i,
                decreases self.mcp_servers@.len() - i,
            {
                if self.mcp_servers[i].selected {
                    out.push(i);
                }
                i = i + 1;
            }
        } else if self.tab == Tab::Plugins {
            let mut i: usize = 0;
            while i < self.plugins.len()
                invariant
                    i <= self.plugins@.len(),
                    self.tab == Tab::Plugins,
                    out@ == marked_upto(plugin_flags(self.plugins@), i as int),
                    forall|k: int| 0 <= k < out@.len() ==> (#[trigger] out@[k]) < i,
                decreases self.plugins@.len() - i,
            {
                if self.plugins[i].selected {
                    out.push(i);
                }
                i = i + 1;
            }
        } else if let Some(t) = self.tab.to_component_type() {
            let mut i: usize = 0;
            while i < self.components.len()
                invariant
                    i <= self.components@.len(),
                    self.tab != Tab::McpServers && self.tab != Tab::Plugins,
                    out@ == marked_upto(selected_of_type(self.components@, t), i as int),
                    forall|k: int| 0 <= k < out@.len() ==> (#[trigger] out@[k]) < i,
                decreases self.components@.len() - i,
            {
                if self.components[i].selected && self.components[i].component_type == t {
                    out.push(i);
                }
                i = i + 1;
            }
        }
        out
    }

    /// Puts the queue on the processing view.
    fn begin_processing(&mut self, queue: Vec<usize>, removing: bool)
        ensures
            final(self).processing_queue == queue,
            final(self).processing_total == Some(queue@.len() as usize),
            final(self).processing_progress == Some(0usize),
            final(self).processing_log@.len() == 1,
            final(self).processing_log@[0]@ == starting_line(removing, queue@.len()),
            final(self).is_removing == removing,
            !final(self).cancelling,
            final(self).current_view == Screen::Installing,
            final(self).tree_views == old(self).tree_views,
            final(self).tab == old(self).tab,
            final(self).components == old(self).components,
            final(self).mcp_servers == old(self).mcp_servers,
            final(self).plugins == old(self).plugins,
            final(self).in_flight == old(self).in_flight,
            final(self).processing_complete == old(self).processing_complete,
            final(self).needs_refresh == old(self).needs_refresh,
            final(self).refreshing == old(self).refreshing,
    {
        let n = queue.len();
        self.processing_queue = queue;
        self.processing_total = Some(n);
        self.processing_progress = Some(0);
        self.processing_log.clear();
        let count = crate::text::decimal_string(n as u64);
        let line = if removing {
            concat3("Starting removal of ", count.as_str(), " items...")
        } else {
            concat3("Starting installation of ", count.as_str(), " items...")
        };
        self.processing_log.push(line);
        self.is_removing = removing;
        self.cancelling = false;
        self.current_view = Screen::Installing;
    }

    /// Starts installing the selected items of the current tab. For MCP
    /// servers, `missing_env[i]` lists the secrets that server `i` needs and
    /// the environment lacks; the first queued server that lacks one opens
    /// the secret prompt instead.
    pub fn install_selected(&mut self, missing_env: &Vec<Vec<String>>)
        requires
            old(self).tab == Tab::McpServers ==> missing_env@.len() == old(self).mcp_servers@.len(),
        ensures
            old(self).selected_queue().len() == 0 ==> (final(self).status_message matches Some(m) && m@
                == "No items selected"@),
            old(self).selected_queue().len() == 0 ==> final(self).processing_queue == old(self).processing_queue
                && final(self).current_view == old(self).current_view,
            old(self).selected_queue().len() > 0 ==> final(self).processing_queue@ == old(self).selected_queue(),
            old(self).selected_queue().len() > 0 ==> (match first_missing(old(self).selected_queue(), missing_env@, old(self).tab) {
                Some(i) => final(self).current_view == Screen::EnvInput && final(self).env_input_server_idx == Some(i)
                    && final(self).env_input_vars@.len() == missing_env@[i as int]@.len()
                    && (forall|t: int| 0 <= t < missing_env@[i as int]@.len() ==> (#[trigger] final(self).env_input_vars@[t])@ == missing_env@[i as int]@[t]@)
                    && final(self).env_input_current == 0 && final(self).env_input_buffer@.len() == 0
                    && final(self).env_input_values@.len() == 0,
                None => final(self).current_view == Screen::Installing && !final(self).is_removing
                    && final(self).processing_log@.len() == 1 && final(self).processing_log@[0]@ == starting_line(false, old(self).selected_queue().len())
                    && final(self).processing_total == Some(old(self).selected_queue().len() as usize)
                    && final(self).processing_progress == Some(0usize) && !final(self).cancelling,
            }),
            old(self).selected_queue().len() > 0 ==> final(self).queue_ok(),
            final(self).tree_views == old(self).tree_views,
            final(self).in_flight == old(self).in_flight,
    {
        let indices = self.selected_items();
        if indices.len() == 0 {
            self.status_message = Some(owned("No items selected"));
            return;
        }
        if self.tab == Tab::McpServers {
            let mut k: usize = 0;
            while k < indices.len()
                invariant
                    k <= indices@.len(),
                    indices@ == old(self).selected_queue(),
                    *self == *old(self),
                    self.tab == Tab::McpServers,
                    missing_env@.len() == self.mcp_servers@.len(),
                    forall|q: int| 0 <= q < indices@.len() ==> (#[trigger] indices@[q]) < self.tab_len(),
                    first_missing_from(indices@, missing_env@, 0) == first_missing_from(indices@, missing_env@, k as int),
                decreases indices@.len() - k,
            {
                let idx = indices[k];
                if missing_env[idx].len() > 0 {
                    let vars = copy_strings(&missing_env[idx]);
                    self.processing_queue = indices;
                    self.start_env_input(idx, vars);
                    return;
                }
                k = k + 1;
            }
        }
        self.begin_processing(indices, false);
    }

    /// Starts removing the selected items of the current tab.
    pub fn remove_selected(&mut self)
        ensures
            old(self).selected_queue().len() == 0 ==> (final(self).status_message matches Some(m) && m@
                == "No items selected"@),
            old(self).selected_queue().len() == 0 ==> final(self).processing_queue == old(self).processing_queue
                && final(self).current_view == old(self).current_view,
            old(self).selected_queue().len() > 0 ==> final(self).processing_queue@ == old(self).selected_queue()
                && final(self).current_view == Screen::Installing && final(self).is_removing
                && final(self).processing_log@.len() == 1 && final(self).processing_log@[0]@ == starting_line(true, old(self).selected_queue().len())
                && final(self).processing_total == Some(old(self).selected_queue().len() as usize)
                && final(self).processing_progress == Some(0usize) && !final(self).cancelling,
            old(self).selected_queue().len() > 0 ==> final(self).queue_ok(),
            final(self).tree_views == old(self).tree_views,
            final(self).in_flight == old(self).in_flight,
    {
        let indices = self.selected_items();
        if indices.len() == 0 {
            self.status_message = Some(owned("No items selected"));
            return;
        }
        self.begin_processing(indices, true);
    }

    /// Starts installing once every secret has been collected.
    pub fn continue_mcp_install(&mut self)
        ensures
            final(self).processing_total == Some(old(self).processing_queue@.len() as usize),
            final(self).processing_progress == Some(0usize),
            final(self).processing_log@.len() == 1,
            final(self).processing_log@[0]@ == starting_line(false, old(self).processing_queue@.len()),
            !final(self).is_removing,
            final(self).current_view == Screen::Installing,
            *final(self) == (App {
                processing_total: final(self).processing_total,
                processing_progress: final(self).processing_progress,
                processing_log: final(self).processing_log,
                is_removing: false,
                current_view: Screen::Installing,
                ..*old(self)
            }),
    {
        let n = self.processing_queue.len();
        self.processing_total = Some(n);
        self.processing_progress = Some(0);
        self.processing_log.clear();
        let count = crate::text::decimal_string(n as u64);
        self.processing_log.push(concat3("Starting installation of ", count.as_str(), " items..."));
        self.is_removing = false;
        self.current_view = Screen::Installing;
    }

    pub open spec fn next_step_spec(&self) -> DispatchStep {
        if self.in_flight is Some {
            DispatchStep::AwaitCompletion
        } else if self.processing_queue@.len() > 0 {
            DispatchStep::Dispatch
        } else if self.needs_refresh && !self.refreshing {
            DispatchStep::StartRefresh
        } else if self.refreshing {
            DispatchStep::AwaitRefresh
        } else {
            DispatchStep::Idle
        }
    }

    /// What the processing view does on this tick.
    pub fn next_step(&self) -> (r: DispatchStep)
        ensures
            r == self.next_step_spec(),
    {
        if self.in_flight.is_some() {
            DispatchStep::AwaitCompletion
        } else if self.processing_queue.len() > 0 {
            DispatchStep::Dispatch
        } else if self.needs_refresh && !self.refreshing {
            DispatchStep::StartRefresh
        } else if self.refreshing {
            DispatchStep::AwaitRefresh
        } else {
            DispatchStep::Idle
        }
    }

    /// The name of queued item `idx` of the current tab.
    pub open spec fn item_name(&self, idx: int) -> Seq<char> {
        if self.tab == Tab::McpServers {
            self.mcp_servers@[idx].def.name@
        } else if self.tab == Tab::Plugins {
            self.plugins@[idx].def.name@
        } else {
            self.components@[idx].name@
        }
    }

    fn get_item_name(&self, idx: usize) -> (r: String)
        requires
            idx < self.tab_len(),
        ensures
            r@ == self.item_name(idx as int),
    {
        if self.tab == Tab::McpServers {
            owned(self.mcp_servers[idx].def.name.as_str())
        } else if self.tab == Tab::Plugins {
            owned(self.plugins[idx].def.name.as_str())
        } else {
            owned(self.components[idx].name.as_str())
        }
    }

    /// The self-contained description of queued item `idx`.
    pub open spec fn materialized(&self, idx: int, w: WorkItem) -> bool {
        if self.tab == Tab::McpServers {
            &&& w matches WorkItem::McpServer { server, scope, project_path, env_values }
            &&& same_def(server.def, self.mcp_servers@[idx].def)
            &&& server.status == self.mcp_servers@[idx].status
            &&& server.selected == self.mcp_servers@[idx].selected
            &&& scope == self.mcp_scope
            &&& (if self.mcp_scope == McpScope::Local {
                project_path matches Some(p) && p@ == self.mcp_project_path@
            } else {
                project_path is None
            })
            &&& (if self.env_input_server_idx == Some(idx as usize) {
                env_values@.len() == self.env_input_values@.len() && forall|k: int|
                    0 <= k < env_values@.len() ==> (#[trigger] env_values@[k]).0@ == self.env_input_values@[k].0@
                        && env_values@[k].1@ == self.env_input_values@[k].1@
            } else {
                env_values@.len() == 0
            })
        } else if self.tab == Tab::Plugins {
            &&& w matches WorkItem::Plugin { plugin }
            &&& same_plugin_def(plugin.def, self.plugins@[idx].def)
            &&& plugin.status == self.plugins@[idx].status
            &&& plugin.selected == self.plugins@[idx].selected
        } else {
            &&& w matches WorkItem::Component { component, source_dir, dest_dir }
            &&& same_component(component, self.components@[idx])
            &&& source_dir@ == self.source_dir@
            &&& dest_dir@ == self.dest_dir@
        }
    }

    fn prepare_work_item(&self, idx: usize) -> (r: WorkItem)
        requires
            idx < self.tab_len(),
        ensures
            self.materialized(idx as int, r),
    {
        if self.tab == Tab::McpServers {
            let s = &self.mcp_servers[idx];
            let server = McpServer { def: copy_def(&s.def), selected: s.selected, status: s.status };
            let env_values = match self.env_input_server_idx {
                Some(e) => if e == idx {
                    copy_pairs(&self.env_input_values)
                } else {
                    Vec::new()
                },
                None => Vec::new(),
            };
            let project_path = if self.mcp_scope == McpScope::Local {
                Some(owned(self.mcp_project_path.as_str()))
            } else {
                None
            };
            WorkItem::McpServer { server, scope: self.mcp_scope, project_path, env_values }
        } else if self.tab == Tab::Plugins {
            let p = &self.plugins[idx];
            WorkItem::Plugin { plugin: Plugin { def: copy_plugin_def(&p.def), selected: p.selected, status: p.status } }
        } else {
            WorkItem::Component {
                component: copy_component(&self.components[idx]),
                source_dir: owned(self.source_dir.as_str()),
                dest_dir: owned(self.dest_dir.as_str()),
            }
        }
    }

    /// Takes the head of the queue, logs that it is in progress, puts it in
    /// flight and returns its self-contained description.
    pub fn dispatch_next(&mut self) -> (r: WorkItem)
        requires
            old(self).in_flight is None,
            old(self).processing_queue@.len() > 0,
            old(self).queue_ok(),
        ensures
            final(self).in_flight == Some(old(self).processing_queue@[0]),
            final(self).processing_queue@ == old(self).processing_queue@.drop_first(),
            final(self).processing_log@ == old(self).processing_log@.push(final(self).processing_log@.last()),
            final(self).processing_log@.last()@ == (if old(self).is_removing { "Removing "@ } else { "Installing "@ })
                + old(self).item_name(old(self).processing_queue@[0] as int) + "..."@,
            old(self).materialized(old(self).processing_queue@[0] as int, r),
            final(self).queue_ok(),
            final(self).tree_views == old(self).tree_views,
            final(self).tab == old(self).tab,
            final(self).is_removing == old(self).is_removing,
            final(self).cancelling == old(self).cancelling,
            final(self).processing_progress == old(self).processing_progress,
    {
        let idx = self.processing_queue.remove(0);
        let name = self.get_item_name(idx);
        let line = if self.is_removing {
            concat3("Removing ", name.as_str(), "...")
        } else {
            concat3("Installing ", name.as_str(), "...")
        };
        self.processing_log.push(line);
        self.in_flight = Some(idx);
        assert(self.queue_ok()) by {
            assert forall|k: int| 0 <= k < self.processing_queue@.len() implies (#[trigger] self.processing_queue@[k]) < self.tab_len() by {
                assert(self.processing_queue@[k] == old(self).processing_queue@[k + 1]);
            }
        }
        self.prepare_work_item(idx)
    }

    /// Records how the item in flight ended and advances the queue; when the
    /// queue is done, moves on to the refresh step.
    pub fn handle_step_result(&mut self, report: StepReport)
        requires
            old(self).in_flight is Some,
            old(self).processing_progress matches Some(p) ==> p < usize::MAX,
        ensures
            final(self).in_flight is None,
            !final(self).cancelling,
            final(self).processing_log@.len() > old(self).processing_log@.len(),
            final(self).processing_log@.subrange(0, old(self).processing_log@.len() as int) == old(self).processing_log@,
            final(self).processing_log@[old(self).processing_log@.len() as int]@ == report_line(report),
            is_cancel(report) && !old(self).is_removing ==> final(self).processing_log@.len() > old(self).processing_log@.len() + 1
                && final(self).processing_log@[old(self).processing_log@.len() as int + 1]@ == "[INFO] Cleaning up cancelled installation..."@,
            is_timeout(report) && !old(self).is_removing ==> final(self).processing_log@.len() > old(self).processing_log@.len() + 1
                && final(self).processing_log@[old(self).processing_log@.len() as int + 1]@ == "[INFO] Cleaning up timed out installation..."@,
            final(self).processing_progress == Some((match old(self).processing_progress {
                Some(p) => p + 1,
                None => 1,
            }) as usize),
            is_cancel(report) ==> final(self).processing_queue@.len() == 0,
            !is_cancel(report) ==> final(self).processing_queue == old(self).processing_queue,
            final(self).needs_refresh == (old(self).needs_refresh || final(self).processing_queue@.len() == 0),
            final(self).queue_ok() == (old(self).queue_ok() || final(self).processing_queue@.len() == 0),
            final(self).tree_views == old(self).tree_views,
            final(self).tab == old(self).tab,
            final(self).is_removing == old(self).is_removing,
            final(self).refreshing == old(self).refreshing,
            final(self).processing_complete == old(self).processing_complete,
    {
        self.in_flight = None;
        self.cancelling = false;
        match report {
            StepReport::Done(msg) => {
                self.processing_log.push(msg);
            },
            StepReport::Failed(outcome) => {
                match outcome {
                    crate::runner::RunOutcome::Cancelled { .. } => {
                        self.processing_log.push(owned("[WARN] Cancelled by user"));
                        if !self.is_removing {
                            self.processing_log.push(owned("[INFO] Cleaning up cancelled installation..."));
                        }
                        self.processing_queue.clear();
                    },
                    crate::runner::RunOutcome::TimedOut { .. } => {
                        let m = outcome.message();
                        self.processing_log.push(concat2("[ERR] ", m.as_str()));
                        if !self.is_removing {
                            self.processing_log.push(owned("[INFO] Cleaning up timed out installation..."));
                        }
                    },
                    _ => {
                        let m = outcome.message();
                        self.processing_log.push(concat2("[ERR] ", m.as_str()));
                    },
                }
            },
            StepReport::Crashed => {
                self.processing_log.push(owned("[ERR] Process thread crashed"));
            },
        }
        let p = match self.processing_progress {
            Some(p) => p + 1,
            None => 1,
        };
        self.processing_progress = Some(p);
        let ghost mid = self.processing_log@;
        let ghost n = old(self).processing_log@.len() as int;
        assert(mid[n]@ == report_line(report));
        if self.processing_queue.len() == 0 {
            self.start_finish_processing();
            assert(self.processing_log@[n] == self.processing_log@.subrange(0, mid.len() as int)[n]);
            assert(mid.len() > n + 1 ==> self.processing_log@[n + 1] == self.processing_log@.subrange(0, mid.len() as int)[n + 1]);
        }
    }

    /// Accepts a cancellation request once per item in flight: logs it,
    /// clears the rest of the queue and returns `true`, telling the caller to
    /// send the signal. Once everything is done, the request closes the view.
    pub fn request_cancel(&mut self) -> (r: bool)
        ensures
            r == (old(self).in_flight is Some && !old(self).cancelling),
            r ==> final(self).processing_queue@.len() == 0
                && final(self).processing_log@ == old(self).processing_log@.push(final(self).processing_log@.last())
                && final(self).processing_log@.last()@ == "[WARN] Cancelling current operation..."@
                && *final(self) == (App {
                    cancelling: true,
                    processing_queue: final(self).processing_queue,
                    processing_log: final(self).processing_log,
                    ..*old(self)
                }),
            !r && old(self).processing_complete ==> final(self).current_view == Screen::List
                && !final(self).processing_complete,
            !r && !old(self).processing_complete ==> *final(self) == *old(self),
            final(self).tree_views == old(self).tree_views,
    {
        if self.in_flight.is_some() && !self.cancelling {
            self.processing_log.push(owned("[WARN] Cancelling current operation..."));
            self.cancelling = true;
            self.processing_queue.clear();
            true
        } else {
            if self.processing_complete {
                self.close_processing();
            }
            false
        }
    }

    /// Leaves the processing view, which is allowed only once everything,
    /// the refresh included, is done.
    pub fn request_close(&mut self) -> (r: bool)
        ensures
            r == old(self).processing_complete,
            r ==> final(self).current_view == Screen::List && !final(self).processing_complete,
            !r ==> *final(self) == *old(self),
            final(self).tree_views == old(self).tree_views,
    {
        if self.processing_complete {
            self.close_processing();
            true
        } else {
            false
        }
    }

    /// The queue is done: logs the summary and asks for the refresh.
    pub fn start_finish_processing(&mut self)
        ensures
            final(self).processing_log@.len() == old(self).processing_log@.len() + 3,
            final(self).processing_log@.subrange(0, old(self).processing_log@.len() as int) == old(self).processing_log@,
            final(self).processing_log@[old(self).processing_log@.len() as int]@ == if old(self).is_removing {
                "[OK] Removal complete!"@
            } else {
                "[OK] Installation complete!"@
            },
            final(self).processing_log@[old(self).processing_log@.len() as int + 2]@ == "Refreshing status..."@,
            final(self).needs_refresh,
            *final(self) == (App { processing_log: final(self).processing_log, needs_refresh: true, ..*old(self) }),
    {
        let line = if self.is_removing {
            owned("[OK] Removal complete!")
        } else {
            owned("[OK] Installation complete!")
        };
        self.processing_log.push(line);
        self.processing_log.push(String::new());
        self.processing_log.push(owned("Refreshing status..."));
        self.needs_refresh = true;
        assert(self.processing_log@.subrange(0, old(self).processing_log@.len() as int) =~= old(self).processing_log@);
    }

    /// The refresh scan has been started.
    pub fn start_refresh(&mut self)
        ensures
            *final(self) == (App { refreshing: true, ..*old(self) }),
    {
        self.refreshing = true;
    }

    /// Takes the refreshed catalog; the processing view may now be closed.
    pub fn apply_refresh_result(&mut self, components: Vec<Component>, mcp_servers: Vec<McpServer>, plugins: Vec<Plugin>)
        ensures
            final(self).components == components,
            final(self).mcp_servers == mcp_servers,
            final(self).plugins == plugins,
            trees_of(components@, final(self).tree_views@),
            final(self).wf(),
            final(self).status_message matches Some(m) && m@ == (if old(self).is_removing { "Removed "@ } else { "Installed "@ })
                + crate::text::decimal((match old(self).processing_total { Some(t) => t, None => 0 }) as nat) + " items"@,
            final(self).processing_log@ == old(self).processing_log@.push(final(self).processing_log@.last()),
            final(self).processing_log@.last()@ == "[OK] Status refresh complete!"@,
            !final(self).needs_refresh,
            !final(self).refreshing,
            final(self).processing_complete,
    {
        self.tree_views = build_tree_views(&components);
        self.components = components;
        self.mcp_servers = mcp_servers;
        self.plugins = plugins;
        let total = match self.processing_total {
            Some(t) => t,
            None => 0,
        };
        let count = crate::text::decimal_string(total as u64);
        let verb = if self.is_removing {
            "Removed "
        } else {
            "Installed "
        };
        self.status_message = Some(concat3(verb, count.as_str(), " items"));
        self.processing_log.push(owned("[OK] Status refresh complete!"));
        self.needs_refresh = false;
        self.refreshing = false;
        self.processing_complete = true;
    }

    /// The refresh scan failed (`Some` with its error) or its thread went
    /// away (`None`); the processing view may still be closed.
    pub fn refresh_failed(&mut self, error: Option<String>)
        ensures
            final(self).processing_log@ == old(self).processing_log@.push(final(self).processing_log@.last()),
            error matches Some(e) ==> final(self).processing_log@.last()@ == "[ERROR] Refresh failed: "@ + e@,
            error is None ==> final(self).processing_log@.last()@ == "[ERROR] Refresh thread crashed"@,
            !final(self).needs_refresh,
            !final(self).refreshing,
            final(self).processing_complete,
            final(self).tree_views == old(self).tree_views,
    {
        let line = match &error {
            Some(e) => concat2("[ERROR] Refresh failed: ", e.as_str()),
            None => owned("[ERROR] Refresh thread crashed"),
        };
        self.processing_log.push(line);
        self.needs_refresh = false;
        self.refreshing = false;
        self.processing_complete = true;
    }

    /// The initial scan failed (`Some` with its error) or its thread went
    /// away (`None`): back to choosing the CLI.
    pub fn loading_failed(&mut self, error: Option<String>)
        ensures
            final(self).current_view == Screen::CliSelection,
            error matches Some(e) ==> (final(self).status_message matches Some(m) && m@ == "Error loading: "@ + e@),
            error is None ==> (final(self).status_message matches Some(m) && m@ == "Loading failed"@),
            final(self).tree_views == old(self).tree_views,
    {
        let msg = match &error {
            Some(e) => concat2("Error loading: ", e.as_str()),
            None => owned("Loading failed"),
        };
        self.status_message = Some(msg);
        self.current_view = Screen::CliSelection;
    }

    /// Leaves the processing view and forgets its state.
    pub fn close_processing(&mut self)
        ensures
            final(self).current_view == Screen::List,
            final(self).processing_queue@.len() == 0,
            final(self).processing_progress is None,
            final(self).processing_total is None,
            final(self).processing_log@.len() == 0,
            !final(self).is_removing,
            !final(self).needs_refresh,
            !final(self).refreshing,
            !final(self).processing_complete,
            *final(self) == (App {
                current_view: Screen::List,
                processing_queue: final(self).processing_queue,
                processing_progress: None,
                processing_total: None,
                processing_log: final(self).processing_log,
                is_removing: false,
                needs_refresh: false,
                refreshing: false,
                processing_complete: false,
                ..*old(self)
            }),
    {
        self.current_view = Screen::List;
        self.processing_queue.clear();
        self.processing_progress = None;
        self.processing_total = None;
        self.processing_log.clear();
        self.is_removing = false;
        self.needs_refresh = false;
        self.refreshing = false;
        self.processing_complete = false;
    }

    /// Advances the spinner.
    pub fn tick(&mut self)
        ensures
            *final(self) == (App { animation_frame: ((old(self).animation_frame + 1) % 10) as usize, ..*old(self) }),
    {
        self.animation_frame = (self.animation_frame % 10 + 1) % 10;
        proof {
            lemma_mod_succ(old(self).animation_frame as int, 10);
        }
    }
}

/// The log line recorded for a finished step.
pub open spec fn report_line(r: StepReport) -> Seq<char> {
    match r {
        StepReport::Done(m) => m@,
        StepReport::Failed(o) => match o {
            crate::runner::RunOutcome::Cancelled { .. } => "[WARN] Cancelled by user"@,
            _ => "[ERR] "@ + crate::runner::outcome_message(o),
        },
        StepReport::Crashed => "[ERR] Process thread crashed"@,
    }
}

pub open spec fn is_timeout(r: StepReport) -> bool {
    r matches StepReport::Failed(crate::runner::RunOutcome::TimedOut { .. })
}

pub open spec fn is_cancel(r: StepReport) -> bool {
    r matches StepReport::Failed(crate::runner::RunOutcome::Cancelled { .. })
}

/// The first queued server, from position `k` on, that lacks a secret.
pub open spec fn first_missing_from(q: Seq<usize>, missing: Seq<Vec<String>>, k: int) -> Option<usize>
    decreases q.len() - k,
{
    if k < 0 || k >= q.len() {
        None
    } else if q[k] < missing.len() && missing[q[k] as int]@.len() > 0 {
        Some(q[k])
    } else {
        first_missing_from(q, missing, k + 1)
    }
}

pub open spec fn first_missing(q: Seq<usize>, missing: Seq<Vec<String>>, tab: Tab) -> Option<usize> {
    if tab == Tab::McpServers {
        first_missing_from(q, missing, 0)
    } else {
        None
    }
}

/// The dispatcher keeps one item in flight at a time: while one is in flight
/// it only waits for that item's completion, and it dispatches only when
/// nothing is in flight.
pub proof fn lemma_one_item_at_a_time(a: App)
    ensures
        a.in_flight is Some ==> a.next_step_spec() == DispatchStep::AwaitCompletion,
        a.next_step_spec() == DispatchStep::Dispatch ==> a.in_flight is None,
{
}


impl App {
    /// The artifact under the cursor of a file-artifact tab, when it exists.
    pub open spec fn cursor_artifact(&self) -> Option<usize> {
        match self.slot() {
            Some(s) => match cursor_leaf(self.tree_views@[s]) {
                Some(c) => if c < self.components@.len() { Some(c) } else { None },
                None => None,
            },
            None => None,
        }
    }

    /// The artifact whose diff `show_diff` displays: the leaf under the
    /// cursor of a file-artifact tab.
    pub fn diff_target(&self) -> (r: Option<usize>)
        requires
            self.wf(),
        ensures
            r == self.cursor_artifact(),
    {
        if self.tab == Tab::McpServers || self.tab == Tab::Plugins {
            return None;
        }
        match self.selected_component_index() {
            Some(c) => if c < self.components.len() {
                Some(c)
            } else {
                None
            },
            None => None,
        }
    }

    /// Shows a computed diff from the top.
    pub fn show_diff(&mut self, diff: String)
        ensures
            *final(self) == (App { diff_content: Some(diff), diff_scroll: 0, current_view: Screen::Diff, ..*old(self) }),
    {
        self.diff_content = Some(diff);
        self.diff_scroll = 0;
        self.current_view = Screen::Diff;
    }

    pub fn close_diff(&mut self)
        ensures
            *final(self) == (App { diff_content: None, current_view: Screen::List, ..*old(self) }),
    {
        self.diff_content = None;
        self.current_view = Screen::List;
    }

    pub fn scroll_diff_down(&mut self)
        ensures
            *final(self) == (App {
                diff_scroll: if old(self).diff_scroll < u16::MAX { (old(self).diff_scroll + 1) as u16 } else { u16::MAX },
                ..*old(self)
            }),
    {
        self.diff_scroll = self.diff_scroll.saturating_add(1);
    }

    pub fn scroll_diff_up(&mut self)
        ensures
            *final(self) == (App {
                diff_scroll: if old(self).diff_scroll > 0 { (old(self).diff_scroll - 1) as u16 } else { 0 },
                ..*old(self)
            }),
    {
        self.diff_scroll = self.diff_scroll.saturating_sub(1);
    }

    /// The artifact under the cursor, when it exists.
    fn cursor_component(&self) -> (r: Option<usize>)
        requires
            self.wf(),
        ensures
            r == self.cursor_artifact(),
    {
        match self.selected_component_index() {
            Some(c) => if c < self.components.len() {
                Some(c)
            } else {
                None
            },
            None => None,
        }
    }

    /// On the styles tab, the style under the cursor (its name without `.md`)
    /// to record as the default; on any other tab, a hint in the status line.
    pub fn set_default_style(&mut self) -> (r: Option<String>)
        requires
            old(self).wf(),
        ensures
            old(self).tab != Tab::OutputStyles ==> r is None,
            old(self).tab != Tab::OutputStyles ==> (final(self).status_message matches Some(m)
                && m@ == "Switch to Styles tab to set default"@),
            old(self).tab == Tab::OutputStyles ==> *final(self) == *old(self) && (match old(self).cursor_artifact() {
                Some(c) => r matches Some(n) && n@ == style_name(old(self).components@[c as int].name@),
                None => r is None,
            }),
            final(self).tree_views == old(self).tree_views,
            final(self).current_output_style == old(self).current_output_style,
    {
        if self.tab != Tab::OutputStyles {
            self.status_message = Some(owned("Switch to Styles tab to set default"));
            return None;
        }
        match self.cursor_component() {
            Some(c) => Some(strip_md(self.components[c].name.as_str())),
            None => None,
        }
    }

    /// The style is now the default in the settings file.
    pub fn record_default_style(&mut self, style: String)
        ensures
            final(self).current_output_style == Some(style),
            final(self).status_message matches Some(m) && m@ == "Set default output style: "@ + style@,
            *final(self) == (App { current_output_style: final(self).current_output_style, status_message: final(self).status_message, ..*old(self) }),
    {
        let msg = concat2("Set default output style: ", style.as_str());
        self.current_output_style = Some(style);
        self.status_message = Some(msg);
    }

    /// Whether the default style may be unset: only on the styles tab; on any
    /// other tab, a hint in the status line.
    pub fn unset_default_style(&mut self) -> (r: bool)
        ensures
            r == (old(self).tab == Tab::OutputStyles),
            r ==> *final(self) == *old(self),
            !r ==> (final(self).status_message matches Some(m) && m@ == "Switch to OutputStyles tab to unset default"@),
            final(self).tree_views == old(self).tree_views,
            final(self).current_output_style == old(self).current_output_style,
    {
        if self.tab != Tab::OutputStyles {
            self.status_message = Some(owned("Switch to OutputStyles tab to unset default"));
            return false;
        }
        true
    }

    /// The default style has been removed from the settings file.
    pub fn record_unset_default_style(&mut self)
        ensures
            final(self).current_output_style is None,
            final(self).status_message matches Some(m) && m@ == "Unset default output style"@,
            *final(self) == (App { current_output_style: None, status_message: final(self).status_message, ..*old(self) }),
    {
        self.current_output_style = None;
        self.status_message = Some(owned("Unset default output style"));
    }

    /// On the statusline tab, the script under the cursor to record as the
    /// statusline; on any other tab, a hint in the status line.
    pub fn set_statusline(&mut self) -> (r: Option<String>)
        requires
            old(self).wf(),
        ensures
            old(self).tab != Tab::Statusline ==> r is None,
            old(self).tab != Tab::Statusline ==> (final(self).status_message matches Some(m)
                && m@ == "Switch to Statusline tab to set default"@),
            old(self).tab == Tab::Statusline ==> *final(self) == *old(self) && (match old(self).cursor_artifact() {
                Some(c) => r matches Some(n) && n@ == old(self).components@[c as int].name@,
                None => r is None,
            }),
            final(self).tree_views == old(self).tree_views,
            final(self).current_statusline == old(self).current_statusline,
    {
        if self.tab != Tab::Statusline {
            self.status_message = Some(owned("Switch to Statusline tab to set default"));
            return None;
        }
        match self.cursor_component() {
            Some(c) => Some(owned(self.components[c].name.as_str())),
            None => None,
        }
    }

    /// The script is now the statusline in the settings file.
    pub fn record_statusline(&mut self, name: String)
        ensures
            final(self).current_statusline == Some(name),
            final(self).status_message matches Some(m) && m@ == "Set statusline: "@ + name@,
            *final(self) == (App { current_statusline: final(self).current_statusline, status_message: final(self).status_message, ..*old(self) }),
    {
        let msg = concat2("Set statusline: ", name.as_str());
        self.current_statusline = Some(name);
        self.status_message = Some(msg);
    }

    /// Whether the statusline may be unset: only on the statusline tab; on
    /// any other tab, a hint in the status line.
    pub fn unset_statusline(&mut self) -> (r: bool)
        ensures
            r == (old(self).tab == Tab::Statusline),
            r ==> *final(self) == *old(self),
            !r ==> (final(self).status_message matches Some(m) && m@ == "Switch to Statusline tab to unset default"@),
            final(self).tree_views == old(self).tree_views,
            final(self).current_statusline == old(self).current_statusline,
    {
        if self.tab != Tab::Statusline {
            self.status_message = Some(owned("Switch to Statusline tab to unset default"));
            return false;
        }
        true
    }

    /// The statusline has been removed from the settings file.
    pub fn record_unset_statusline(&mut self)
        ensures
            final(self).current_statusline is None,
            final(self).status_message matches Some(m) && m@ == "Unset statusline"@,
            *final(self) == (App { current_statusline: None, status_message: final(self).status_message, ..*old(self) }),
    {
        self.current_statusline = None;
        self.status_message = Some(owned("Unset statusline"));
    }
}

} // verus!
