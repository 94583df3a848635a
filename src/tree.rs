use vstd::prelude::*;
use vstd::string::*;
use crate::component::Component;
use crate::text::{concat3, owned, push_char};

verus! {

/// A node of the selection tree, stored in an arena and linked by indices.
#[derive(Clone, Debug)]
pub enum TreeNode {
    Folder {
        name: String,
        path: String,
        expanded: bool,
        children: Vec<usize>,
        depth: usize,
        parent_idx: Option<usize>,
    },
    File { component_idx: usize, depth: usize, parent_idx: Option<usize> },
}

pub open spec fn children_of(n: TreeNode) -> Seq<usize> {
    match n {
        TreeNode::Folder { children, .. } => children@,
        TreeNode::File { .. } => Seq::empty(),
    }
}

pub open spec fn parent_of(n: TreeNode) -> Option<usize> {
    match n {
        TreeNode::Folder { parent_idx, .. } => parent_idx,
        TreeNode::File { parent_idx, .. } => parent_idx,
    }
}

pub open spec fn depth_of(n: TreeNode) -> usize {
    match n {
        TreeNode::Folder { depth, .. } => depth,
        TreeNode::File { depth, .. } => depth,
    }
}

/// A folder whose children are shown.
pub open spec fn is_open_folder(n: TreeNode) -> bool {
    n matches TreeNode::Folder { expanded, .. } && expanded
}

/// The same node with its `expanded` flag set to `e` (files are unchanged).
pub open spec fn with_expanded(n: TreeNode, e: bool) -> TreeNode {
    match n {
        TreeNode::Folder { name, path, expanded, children, depth, parent_idx } => TreeNode::Folder {
            name,
            path,
            expanded: e,
            children,
            depth,
            parent_idx,
        },
        TreeNode::File { .. } => n,
    }
}

/// The depth-first visible walk from node `i`: the node itself and, when it is
/// an expanded folder, the walks of its children in order. A child link that
/// does not point forward in the arena is not followed.
pub open spec fn vis_node(nodes: Seq<TreeNode>, i: int) -> Seq<usize>
    decreases nodes.len() - i, 1int, 0int,
{
    if 0 <= i < nodes.len() {
        if is_open_folder(nodes[i]) {
            seq![i as usize] + vis_list(nodes, children_of(nodes[i]), i, children_of(nodes[i]).len() as int)
        } else {
            seq![i as usize]
        }
    } else {
        Seq::empty()
    }
}

/// The visible walks of the first `k` entries of `cs`, children of `above`.
pub open spec fn vis_list(nodes: Seq<TreeNode>, cs: Seq<usize>, above: int, k: int) -> Seq<usize>
    decreases nodes.len() - above, 0int, k,
{
    if k <= 0 || k > cs.len() {
        Seq::empty()
    } else {
        vis_list(nodes, cs, above, k - 1) + (if above < cs[k - 1] < nodes.len() {
            vis_node(nodes, cs[k - 1] as int)
        } else {
            Seq::empty()
        })
    }
}

/// The visible list of a forest with the given roots.
pub open spec fn visible_of(nodes: Seq<TreeNode>, roots: Seq<usize>) -> Seq<usize> {
    vis_list(nodes, roots, -1, roots.len() as int)
}

/// The artifact indices of all leaves under node `i`, in tree order.
pub open spec fn leaves_node(nodes: Seq<TreeNode>, i: int) -> Seq<usize>
    decreases nodes.len() - i, 1int, 0int,
{
    if 0 <= i < nodes.len() {
        match nodes[i] {
            TreeNode::File { component_idx, .. } => seq![component_idx],
            TreeNode::Folder { children, .. } => leaves_list(nodes, children@, i, children@.len() as int),
        }
    } else {
        Seq::empty()
    }
}

pub open spec fn leaves_list(nodes: Seq<TreeNode>, cs: Seq<usize>, above: int, k: int) -> Seq<usize>
    decreases nodes.len() - above, 0int, k,
{
    if k <= 0 || k > cs.len() {
        Seq::empty()
    } else {
        leaves_list(nodes, cs, above, k - 1) + (if above < cs[k - 1] < nodes.len() {
            leaves_node(nodes, cs[k - 1] as int)
        } else {
            Seq::empty()
        })
    }
}

/// Every parent link points backwards in the arena, to a folder one level up.
pub open spec fn parents_ok(nodes: Seq<TreeNode>) -> bool {
    forall|i: int|
        #![trigger parent_of(nodes[i])]
        0 <= i < nodes.len() ==> match parent_of(nodes[i]) {
            Some(p) => p < i && nodes[p as int] is Folder && depth_of(nodes[i]) == depth_of(
                nodes[p as int],
            ) + 1,
            None => depth_of(nodes[i]) == 0,
        }
}

pub proof fn lemma_vis_node_in_range(nodes: Seq<TreeNode>, i: int)
    ensures
        forall|j: int| 0 <= j < vis_node(nodes, i).len() ==> #[trigger] vis_node(nodes, i)[j] < nodes.len(),
    decreases nodes.len() - i, 1int, 0int,
{
    if 0 <= i < nodes.len() {
        if is_open_folder(nodes[i]) {
            let cs = children_of(nodes[i]);
            let l = vis_list(nodes, cs, i, cs.len() as int);
            lemma_vis_list_in_range(nodes, cs, i, cs.len() as int);
            assert(vis_node(nodes, i) == seq![i as usize] + l);
            assert forall|j: int| 0 <= j < vis_node(nodes, i).len() implies #[trigger] vis_node(
                nodes,
                i,
            )[j] < nodes.len() by {
                if j > 0 {
                    assert(vis_node(nodes, i)[j] == l[j - 1]);
                }
            }
        }
    }
}

pub proof fn lemma_vis_list_in_range(nodes: Seq<TreeNode>, cs: Seq<usize>, above: int, k: int)
    ensures
        forall|j: int|
            0 <= j < vis_list(nodes, cs, above, k).len() ==> #[trigger] vis_list(nodes, cs, above, k)[j]
                < nodes.len(),
    decreases nodes.len() - above, 0int, k,
{
    if !(k <= 0 || k > cs.len()) {
        let a = vis_list(nodes, cs, above, k - 1);
        lemma_vis_list_in_range(nodes, cs, above, k - 1);
        let b = if above < cs[k - 1] < nodes.len() {
            vis_node(nodes, cs[k - 1] as int)
        } else {
            Seq::empty()
        };
        if above < cs[k - 1] < nodes.len() {
            lemma_vis_node_in_range(nodes, cs[k - 1] as int);
        }
        assert(vis_list(nodes, cs, above, k) == a + b);
        assert forall|j: int| 0 <= j < vis_list(nodes, cs, above, k).len() implies #[trigger] vis_list(
            nodes,
            cs,
            above,
            k,
        )[j] < nodes.len() by {
            if j >= a.len() {
                assert(vis_list(nodes, cs, above, k)[j] == b[j - a.len()]);
            } else {
                assert(vis_list(nodes, cs, above, k)[j] == a[j]);
            }
        }
    }
}

/// Collapsing an expanded folder leaves only the folder itself in its part of
/// the visible walk; expanding it again gives back the very same tree, and so
/// the very same visible list, in the same order.
pub proof fn lemma_collapse_then_expand(nodes: Seq<TreeNode>, roots: Seq<usize>, f: int)
    requires
        0 <= f < nodes.len(),
        is_open_folder(nodes[f]),
    ensures
        vis_node(nodes.update(f, with_expanded(nodes[f], false)), f) == seq![f as usize],
        nodes.update(f, with_expanded(nodes[f], false)).update(
            f,
            with_expanded(with_expanded(nodes[f], false), true),
        ) == nodes,
        visible_of(
            nodes.update(f, with_expanded(nodes[f], false)).update(
                f,
                with_expanded(with_expanded(nodes[f], false), true),
            ),
            roots,
        ) == visible_of(nodes, roots),
{
    let collapsed = nodes.update(f, with_expanded(nodes[f], false));
    assert(!is_open_folder(collapsed[f]));
    let restored = collapsed.update(f, with_expanded(collapsed[f], true));
    assert(restored =~= nodes);
}

impl TreeNode {
    pub fn depth(&self) -> (r: usize)
        ensures
            r == depth_of(*self),
    {
        match self {
            TreeNode::Folder { depth, .. } => *depth,
            TreeNode::File { depth, .. } => *depth,
        }
    }

    pub fn is_folder(&self) -> (r: bool)
        ensures
            r == (*self is Folder),
    {
        match self {
            TreeNode::Folder { .. } => true,
            TreeNode::File { .. } => false,
        }
    }

    pub fn is_expanded(&self) -> (r: bool)
        ensures
            r == is_open_folder(*self),
    {
        match self {
            TreeNode::Folder { expanded, .. } => *expanded,
            TreeNode::File { .. } => false,
        }
    }

    fn parent(&self) -> (r: Option<usize>)
        ensures
            r == parent_of(*self),
    {
        match self {
            TreeNode::Folder { parent_idx, .. } => *parent_idx,
            TreeNode::File { parent_idx, .. } => *parent_idx,
        }
    }
}

/// The selection tree: an arena of nodes, the derived visible list and a
/// cursor into it.
#[derive(Clone, Debug)]
pub struct TreeView {
    pub nodes: Vec<TreeNode>,
    pub visible_indices: Vec<usize>,
    pub cursor: usize,
    pub root_children: Vec<usize>,
}

impl Default for TreeView {
    fn default() -> (r: TreeView)
        ensures
            r.nodes@.len() == 0,
            r.visible_indices@.len() == 0,
            r.root_children@.len() == 0,
            r.cursor == 0,
    {
        TreeView { nodes: Vec::new(), visible_indices: Vec::new(), cursor: 0, root_children: Vec::new() }
    }
}

/// Appends the visible walk from `i` to `out`.
fn add_visible(nodes: &Vec<TreeNode>, i: usize, out: &mut Vec<usize>)
    requires
        i < nodes@.len(),
    ensures
        final(out)@ == old(out)@ + vis_node(nodes@, i as int),
    decreases nodes@.len() - i,
{
    let ghost start = out@;
    out.push(i);
    match &nodes[i] {
        TreeNode::Folder { expanded, children, .. } => {
            if *expanded {
                let mut k: usize = 0;
                while k < children.len()
                    invariant
                        i < nodes@.len(),
                        nodes@[i as int] matches TreeNode::Folder { children: ch, .. } && ch@ == children@,
                        k <= children@.len(),
                        out@ == start + seq![i] + vis_list(nodes@, children@, i as int, k as int),
                    decreases children@.len() - k,
                {
                    let c = children[k];
                    if i < c && c < nodes.len() {
                        add_visible(nodes, c, out);
                    }
                    assert(out@ =~= start + seq![i] + vis_list(nodes@, children@, i as int, k + 1));
                    k = k + 1;
                }
                assert(out@ =~= start + vis_node(nodes@, i as int));
            } else {
                assert(out@ =~= start + vis_node(nodes@, i as int));
            }
        },
        TreeNode::File { .. } => {
            assert(out@ =~= start + vis_node(nodes@, i as int));
        },
    }
}

/// Appends the leaf artifact indices under `i` to `out`.
fn collect_leaves(nodes: &Vec<TreeNode>, i: usize, out: &mut Vec<usize>)
    requires
        i < nodes@.len(),
    ensures
        final(out)@ == old(out)@ + leaves_node(nodes@, i as int),
    decreases nodes@.len() - i,
{
    let ghost start = out@;
    match &nodes[i] {
        TreeNode::File { component_idx, .. } => {
            out.push(*component_idx);
            assert(out@ =~= start + leaves_node(nodes@, i as int));
        },
        TreeNode::Folder { children, .. } => {
            let mut k: usize = 0;
            while k < children.len()
                invariant
                    i < nodes@.len(),
                    nodes@[i as int] matches TreeNode::Folder { children: ch, .. } && ch@ == children@,
                    k <= children@.len(),
                    out@ == start + leaves_list(nodes@, children@, i as int, k as int),
                decreases children@.len() - k,
            {
                let c = children[k];
                if i < c && c < nodes.len() {
                    collect_leaves(nodes, c, out);
                }
                assert(out@ =~= start + leaves_list(nodes@, children@, i as int, k + 1));
                k = k + 1;
            }
        },
    }
}

impl TreeView {
    /// The structural and derived-state invariant of a tree.
    pub open spec fn wf(&self) -> bool {
        &&& parents_ok(self.nodes@)
        &&& links_ok(forest_of(self.nodes@, self.root_children@))
        &&& self.visible_indices@ == visible_of(self.nodes@, self.root_children@)
        &&& self.visible_indices@.len() > 0 ==> self.cursor < self.visible_indices@.len()
    }

    /// The arena index of the node under the cursor, if any.
    pub open spec fn cursor_node(&self) -> Option<int> {
        if self.cursor < self.visible_indices@.len() {
            Some(self.visible_indices@[self.cursor as int] as int)
        } else {
            None
        }
    }

    /// The state after the visible list is derived again from `nodes`.
    pub open spec fn rebuilt(old_tree: TreeView, nodes: Seq<TreeNode>, t: TreeView) -> bool {
        &&& t.nodes@ == nodes
        &&& t.root_children@ == old_tree.root_children@
        &&& t.visible_indices@ == visible_of(nodes, old_tree.root_children@)
        &&& t.cursor == (if t.visible_indices@.len() > 0 && old_tree.cursor
            >= t.visible_indices@.len() {
            (t.visible_indices@.len() - 1) as usize
        } else {
            old_tree.cursor
        })
    }

    /// Derives the visible list again and clamps the cursor into it.
    pub fn rebuild_visible(&mut self)
        requires
            parents_ok(old(self).nodes@),
            links_ok(forest_of(old(self).nodes@, old(self).root_children@)),
        ensures
            Self::rebuilt(*old(self), old(self).nodes@, *final(self)),
            final(self).wf(),
    {
        let mut v: Vec<usize> = Vec::new();
        let mut k: usize = 0;
        while k < self.root_children.len()
            invariant
                k <= self.root_children@.len(),
                v@ == vis_list(self.nodes@, self.root_children@, -1, k as int),
            decreases self.root_children@.len() - k,
        {
            let r = self.root_children[k];
            if r < self.nodes.len() {
                add_visible(&self.nodes, r, &mut v);
            }
            assert(v@ =~= vis_list(self.nodes@, self.root_children@, -1, k + 1));
            k = k + 1;
        }
        self.visible_indices = v;
        if self.visible_indices.len() > 0 && self.cursor >= self.visible_indices.len() {
            self.cursor = self.visible_indices.len() - 1;
        }
    }

    pub fn current_node_idx(&self) -> (r: Option<usize>)
        ensures
            r matches Some(j) ==> self.cursor_node() == Some(j as int),
            r is None ==> self.cursor_node() is None,
    {
        if self.cursor < self.visible_indices.len() {
            Some(self.visible_indices[self.cursor])
        } else {
            None
        }
    }

    pub fn current_node(&self) -> (r: Option<&TreeNode>)
        requires
            self.wf(),
        ensures
            r matches Some(n) ==> self.cursor_node() matches Some(j) && *n == self.nodes@[j],
            r is None ==> self.cursor_node() is None,
    {
        proof {
            lemma_vis_list_in_range(self.nodes@, self.root_children@, -1, self.root_children@.len() as int);
        }
        if self.cursor < self.visible_indices.len() {
            let idx = self.visible_indices[self.cursor];
            assert(self.visible_indices@[self.cursor as int] < self.nodes@.len());
            Some(&self.nodes[idx])
        } else {
            None
        }
    }

    pub fn is_on_folder(&self) -> (r: bool)
        requires
            self.wf(),
        ensures
            r == (self.cursor_node() matches Some(j) && self.nodes@[j] is Folder),
    {
        match self.current_node() {
            Some(n) => n.is_folder(),
            None => false,
        }
    }

    pub fn is_current_folder_expanded(&self) -> (r: bool)
        requires
            self.wf(),
        ensures
            r == (self.cursor_node() matches Some(j) && is_open_folder(self.nodes@[j])),
    {
        match self.current_node() {
            Some(n) => n.is_expanded(),
            None => false,
        }
    }

    pub fn current_component_idx(&self) -> (r: Option<usize>)
        requires
            self.wf(),
        ensures
            r == (match self.cursor_node() {
                Some(j) => match self.nodes@[j] {
                    TreeNode::File { component_idx, .. } => Some(component_idx),
                    _ => None,
                },
                None => None,
            }),
    {
        match self.current_node() {
            Some(TreeNode::File { component_idx, .. }) => Some(*component_idx),
            _ => None,
        }
    }
}


impl TreeView {
    /// Sets the `expanded` flag of folder `j`, leaving the visible list as it was.
    fn set_expanded(&mut self, j: usize, e: bool)
        requires
            j < old(self).nodes@.len(),
            old(self).nodes@[j as int] is Folder,
            parents_ok(old(self).nodes@),
        ensures
            final(self).nodes@ == old(self).nodes@.update(j as int, with_expanded(old(self).nodes@[j as int], e)),
            final(self).root_children == old(self).root_children,
            final(self).visible_indices == old(self).visible_indices,
            final(self).cursor == old(self).cursor,
            parents_ok(final(self).nodes@),
            links_ok(forest_of(old(self).nodes@, old(self).root_children@)) ==> links_ok(
                forest_of(final(self).nodes@, final(self).root_children@),
            ),
    {
        if let TreeNode::Folder { expanded, .. } = &mut self.nodes[j] {
            *expanded = e;
        }
        proof {
            let a = forest_of(old(self).nodes@, old(self).root_children@);
            let b = forest_of(self.nodes@, self.root_children@);
            assert forall|i: int| 0 <= i < b.nodes.len() implies #[trigger] children_v(b.nodes[i]) == children_v(a.nodes[i])
                && parent_v(b.nodes[i]) == parent_v(a.nodes[i]) by {}
            if links_ok(a) {
                assert forall|p: int, k: int| 0 <= p < b.nodes.len() && 0 <= k < children_v(b.nodes[p]).len() implies {
                    let c = #[trigger] children_v(b.nodes[p])[k];
                    p < c < b.nodes.len() && parent_v(b.nodes[c as int]) == Some(p as usize)
                } by {
                    assert(children_v(b.nodes[p]) == children_v(a.nodes[p]));
                    let c = children_v(a.nodes[p])[k];
                    assert(parent_v(b.nodes[c as int]) == parent_v(a.nodes[c as int]));
                }
                assert forall|k: int| 0 <= k < b.roots.len() implies (#[trigger] b.roots[k]) < b.nodes.len() && parent_v(
                    b.nodes[b.roots[k] as int],
                ) is None by {
                    assert(parent_v(b.nodes[b.roots[k] as int]) == parent_v(a.nodes[a.roots[k] as int]));
                }
                assert forall|x: int| 0 <= x < b.nodes.len() implies match #[trigger] parent_v(b.nodes[x]) {
                    Some(p) => p < x && children_v(b.nodes[p as int]).contains(x as usize),
                    None => b.roots.contains(x as usize),
                } by {
                    assert(parent_v(b.nodes[x]) == parent_v(a.nodes[x]));
                    match parent_v(a.nodes[x]) {
                        Some(p) => {
                            assert(children_v(b.nodes[p as int]) == children_v(a.nodes[p as int]));
                        },
                        None => {},
                    }
                }
            }
        }
        proof {
            let n = self.nodes@;
            assert(n == old(self).nodes@.update(j as int, with_expanded(old(self).nodes@[j as int], e)));
            assert forall|i: int| 0 <= i < n.len() implies #[trigger] parent_of(n[i]) == parent_of(old(self).nodes@[i])
                && depth_of(n[i]) == depth_of(old(self).nodes@[i]) && (n[i] is Folder <==> old(self).nodes@[i] is Folder) by {}
            assert(parents_ok(n));
        }
    }

    /// Flips the folder under the cursor between expanded and collapsed.
    pub fn toggle_expand(&mut self)
        requires
            old(self).wf(),
        ensures
            final(self).wf(),
            Self::toggle_expand_post(*old(self), *final(self)),
    {
        proof {
            lemma_vis_list_in_range(self.nodes@, self.root_children@, -1, self.root_children@.len() as int);
        }
        if let Some(j) = self.current_node_idx() {
            if self.nodes[j].is_folder() {
                let e = self.nodes[j].is_expanded();
                self.set_expanded(j, !e);
                self.rebuild_visible();
            }
        }
    }

    /// Expands the folder under the cursor if it is collapsed.
    pub fn expand(&mut self)
        requires
            old(self).wf(),
        ensures
            final(self).wf(),
            Self::expand_post(*old(self), *final(self)),
    {
        proof {
            lemma_vis_list_in_range(self.nodes@, self.root_children@, -1, self.root_children@.len() as int);
        }
        if let Some(j) = self.current_node_idx() {
            if self.nodes[j].is_folder() && !self.nodes[j].is_expanded() {
                self.set_expanded(j, true);
                self.rebuild_visible();
            }
        }
    }

    /// Collapses the folder under the cursor if it is expanded.
    pub fn collapse(&mut self)
        requires
            old(self).wf(),
        ensures
            final(self).wf(),
            Self::collapse_post(*old(self), *final(self)),
    {
        proof {
            lemma_vis_list_in_range(self.nodes@, self.root_children@, -1, self.root_children@.len() as int);
        }
        if let Some(j) = self.current_node_idx() {
            if self.nodes[j].is_expanded() {
                self.set_expanded(j, false);
                self.rebuild_visible();
            }
        }
    }

    /// The parent of the node under the cursor, when that parent is an
    /// expanded folder.
    pub open spec fn open_parent(&self) -> Option<int> {
        match self.cursor_node() {
            Some(j) => match parent_of(self.nodes@[j]) {
                Some(p) if p < self.nodes@.len() && is_open_folder(self.nodes@[p as int]) => Some(p as int),
                _ => None,
            },
            None => None,
        }
    }

    /// Zooms out: collapses the parent of the node under the cursor and moves
    /// the cursor onto it. When there is no parent, or it is collapsed already,
    /// nothing changes.
    pub fn collapse_parent(&mut self)
        requires
            old(self).wf(),
        ensures
            final(self).wf(),
            Self::collapse_parent_post(*old(self), *final(self)),
    {
        proof {
            lemma_vis_list_in_range(self.nodes@, self.root_children@, -1, self.root_children@.len() as int);
        }
        if let Some(j) = self.current_node_idx() {
            if let Some(p) = self.nodes[j].parent() {
                if p < self.nodes.len() && self.nodes[p].is_expanded() {
                    proof {
                        let n0 = self.nodes@;
                        assert(self.visible_indices@[self.cursor as int] == j);
                        assert(visible_of(n0, self.root_children@).contains(j));
                        lemma_visible_ancestors_open(n0, self.root_children@, j);
                        lemma_ancestors_open_update(n0, p as int, p as int, false);
                    }
                    self.set_expanded(p, false);
                    self.rebuild_visible();
                    proof {
                        lemma_open_ancestors_visible(self.nodes@, self.root_children@, p as int);
                    }
                    let ghost after = *self;
                    let mut q: usize = 0;
                    while q < self.visible_indices.len()
                        invariant
                            self.wf(),
                            *self == after,
                            old(self).open_parent() == Some(p as int),
                            self.nodes@ == old(self).nodes@.update(p as int, with_expanded(old(self).nodes@[p as int], false)),
                            self.root_children@ == old(self).root_children@,
                            q <= self.visible_indices@.len(),
                            self.visible_indices@.contains(p),
                            forall|t: int| 0 <= t < q ==> self.visible_indices@[t] != p,
                        decreases self.visible_indices@.len() - q,
                    {
                        if self.visible_indices[q] == p {
                            self.cursor = q;
                            return;
                        }
                        q = q + 1;
                    }
                }
            }
        }
    }

    /// Moves the cursor down, wrapping to the top.
    pub fn next(&mut self)
        requires
            old(self).wf(),
        ensures
            final(self).wf(),
            Self::next_post(*old(self), *final(self)),
    {
        if self.visible_indices.len() > 0 {
            self.cursor = (self.cursor + 1) % self.visible_indices.len();
        }
    }

    /// Moves the cursor up, wrapping to the bottom.
    pub fn prev(&mut self)
        requires
            old(self).wf(),
        ensures
            final(self).wf(),
            Self::prev_post(*old(self), *final(self)),
    {
        if self.visible_indices.len() > 0 {
            self.cursor = if self.cursor == 0 {
                self.visible_indices.len() - 1
            } else {
                self.cursor - 1
            };
        }
    }

    /// The artifact indices of every leaf under `folder_idx`, in tree order.
    pub fn get_folder_component_indices(&self, folder_idx: usize) -> (r: Vec<usize>)
        requires
            folder_idx < self.nodes@.len(),
        ensures
            r@ == leaves_node(self.nodes@, folder_idx as int),
    {
        let mut out: Vec<usize> = Vec::new();
        collect_leaves(&self.nodes, folder_idx, &mut out);
        assert(out@ =~= leaves_node(self.nodes@, folder_idx as int));
        out
    }

    pub fn is_folder_all_selected(&self, folder_idx: usize, components: &[Component]) -> (r: bool)
        requires
            folder_idx < self.nodes@.len(),
        ensures
            r == all_selected(leaves_node(self.nodes@, folder_idx as int), components@),
    {
        let indices = self.get_folder_component_indices(folder_idx);
        if indices.len() == 0 {
            return false;
        }
        let mut k: usize = 0;
        while k < indices.len()
            invariant
                k <= indices@.len(),
                indices@ == leaves_node(self.nodes@, folder_idx as int),
                forall|t: int| 0 <= t < k ==> #[trigger] is_selected_at(components@, indices@[t]),
            decreases indices@.len() - k,
        {
            let c = indices[k];
            if c >= components.len() || !components[c].selected {
                assert(!is_selected_at(components@, indices@[k as int]));
                return false;
            }
            k = k + 1;
        }
        true
    }

    pub fn is_folder_any_selected(&self, folder_idx: usize, components: &[Component]) -> (r: bool)
        requires
            folder_idx < self.nodes@.len(),
        ensures
            r == any_selected(leaves_node(self.nodes@, folder_idx as int), components@),
    {
        let indices = self.get_folder_component_indices(folder_idx);
        let mut k: usize = 0;
        while k < indices.len()
            invariant
                k <= indices@.len(),
                indices@ == leaves_node(self.nodes@, folder_idx as int),
                forall|t: int| 0 <= t < k ==> !#[trigger] is_selected_at(components@, indices@[t]),
            decreases indices@.len() - k,
        {
            let c = indices[k];
            if c < components.len() && components[c].selected {
                assert(is_selected_at(components@, indices@[k as int]));
                assert(0 <= k < indices@.len());
                return true;
            }
            k = k + 1;
        }
        false
    }
}

/// The artifact at `i` exists and is selected.
pub open spec fn is_selected_at(components: Seq<Component>, i: usize) -> bool {
    i < components.len() && components[i as int].selected
}

/// A non-empty list of artifacts that are all selected.
pub open spec fn all_selected(idx: Seq<usize>, components: Seq<Component>) -> bool {
    idx.len() > 0 && forall|t: int| 0 <= t < idx.len() ==> #[trigger] is_selected_at(components, idx[t])
}

/// Some artifact of the list is selected.
pub open spec fn any_selected(idx: Seq<usize>, components: Seq<Component>) -> bool {
    exists|t: int| 0 <= t < idx.len() && #[trigger] is_selected_at(components, idx[t])
}


/// Path separators: both the Unix and the Windows one.
pub open spec fn is_sep(c: char) -> bool {
    c == '/' || c == '\\'
}

/// The name with every separator written as `/`.
pub open spec fn normalized(s: Seq<char>) -> Seq<char> {
    s.map_values(|c: char| if is_sep(c) { '/' } else { c })
}

/// The segments joined with `/`.
pub open spec fn joined(parts: Seq<Seq<char>>) -> Seq<char>
    decreases parts.len(),
{
    if parts.len() == 0 {
        Seq::empty()
    } else if parts.len() == 1 {
        parts[0]
    } else {
        joined(parts.drop_last()) + seq!['/'] + parts.last()
    }
}

pub open spec fn views(ps: Seq<String>) -> Seq<Seq<char>> {
    ps.map_values(|p: String| p@)
}

pub open spec fn has_no_sep(s: Seq<char>) -> bool {
    forall|i: int| 0 <= i < s.len() ==> !is_sep(#[trigger] s[i])
}

proof fn lemma_joined_push_char(v: Seq<Seq<char>>, a: Seq<char>, c: char)
    ensures
        joined(v.push(a.push(c))) == joined(v.push(a)).push(c),
{
    let x = v.push(a.push(c));
    let y = v.push(a);
    assert(x.drop_last() =~= v);
    assert(y.drop_last() =~= v);
    if v.len() == 0 {
        assert(joined(x) == a.push(c));
    } else {
        assert(joined(x) =~= joined(y).push(c));
    }
}

proof fn lemma_joined_push_empty(v: Seq<Seq<char>>, a: Seq<char>)
    ensures
        joined(v.push(a).push(Seq::empty())) == joined(v.push(a)).push('/'),
{
    let x = v.push(a).push(Seq::<char>::empty());
    assert(x.drop_last() =~= v.push(a));
    assert(joined(x) =~= joined(v.push(a)).push('/'));
}

/// Splits an artifact name into its path segments, on `/` and on `\\`.
pub fn split_path(name: &str) -> (r: Vec<String>)
    ensures
        r@.len() >= 1,
        views(r@) == segments(name@),
        joined(views(r@)) == normalized(name@),
        forall|k: int| 0 <= k < r@.len() ==> has_no_sep(#[trigger] r@[k]@),
{
    let n = name.unicode_len();
    let mut parts: Vec<String> = Vec::new();
    let mut cur = String::new();
    let mut i: usize = 0;
    while i < n
        invariant
            n == name@.len(),
            i <= n,
            joined(views(parts@).push(cur@)) == normalized(name@.subrange(0, i as int)),
            views(parts@).push(cur@) == segments(name@.subrange(0, i as int)),
            has_no_sep(cur@),
            forall|k: int| 0 <= k < parts@.len() ==> has_no_sep(#[trigger] parts@[k]@),
        decreases n - i,
    {
        let c = name.get_char(i);
        let ghost v = views(parts@);
        let ghost a = cur@;
        assert(name@.subrange(0, i + 1).drop_last() =~= name@.subrange(0, i as int));
        assert(normalized(name@.subrange(0, i + 1)) =~= normalized(name@.subrange(0, i as int)).push(
            if is_sep(c) { '/' } else { c },
        ));
        if c == '/' || c == '\\' {
            parts.push(cur);
            cur = String::new();
            proof {
                assert(views(parts@) =~= v.push(a));
                lemma_joined_push_empty(v, a);
                assert(views(parts@).push(cur@) =~= segments(name@.subrange(0, i + 1)));
            }
        } else {
            push_char(&mut cur, c);
            proof {
                lemma_joined_push_char(v, a, c);
                assert(v.push(a).update(v.len() as int, a.push(c)) =~= v.push(cur@));
            }
        }
        i = i + 1;
    }
    let ghost v = views(parts@);
    parts.push(cur);
    assert(views(parts@) =~= v.push(cur@));
    assert(name@.subrange(0, n as int) =~= name@);
    assert(name@.subrange(0, n as int) =~= name@);
    parts
}

/// The artifact index of a leaf node.
pub open spec fn leaf_idx(n: TreeNode) -> Option<usize> {
    match n {
        TreeNode::File { component_idx, .. } => Some(component_idx),
        TreeNode::Folder { .. } => None,
    }
}

/// Some leaf of the arena stands for artifact `c`.
pub open spec fn has_leaf(nodes: Seq<TreeNode>, c: usize) -> bool {
    exists|j: int| 0 <= j < nodes.len() && #[trigger] leaf_idx(nodes[j]) == Some(c)
}

/// `b` keeps every node of `a` in the same shape, and may hold more.
pub open spec fn extends(a: Seq<TreeNode>, b: Seq<TreeNode>) -> bool {
    &&& a.len() <= b.len()
    &&& forall|j: int|
        0 <= j < a.len() ==> {
            &&& #[trigger] leaf_idx(b[j]) == leaf_idx(a[j])
            &&& parent_of(b[j]) == parent_of(a[j])
            &&& depth_of(b[j]) == depth_of(a[j])
            &&& (b[j] is Folder <==> a[j] is Folder)
        }
}

proof fn lemma_extends_keeps_leaves(a: Seq<TreeNode>, b: Seq<TreeNode>)
    requires
        extends(a, b),
    ensures
        forall|c: usize| has_leaf(a, c) ==> has_leaf(b, c),
{
    assert forall|c: usize| has_leaf(a, c) implies has_leaf(b, c) by {
        let j = choose|j: int| 0 <= j < a.len() && #[trigger] leaf_idx(a[j]) == Some(c);
        assert(leaf_idx(b[j]) == Some(c));
    }
}

proof fn lemma_extends_trans(a: Seq<TreeNode>, b: Seq<TreeNode>, c: Seq<TreeNode>)
    requires
        extends(a, b),
        extends(b, c),
    ensures
        extends(a, c),
{
    assert forall|j: int| 0 <= j < a.len() implies {
        &&& #[trigger] leaf_idx(c[j]) == leaf_idx(a[j])
        &&& parent_of(c[j]) == parent_of(a[j])
        &&& depth_of(c[j]) == depth_of(a[j])
        &&& (c[j] is Folder <==> a[j] is Folder)
    } by {
        assert(leaf_idx(b[j]) == leaf_idx(a[j]));
        assert(leaf_idx(c[j]) == leaf_idx(b[j]));
    }
}

proof fn lemma_same_shape_parents_ok(a: Seq<TreeNode>, b: Seq<TreeNode>)
    requires
        parents_ok(a),
        extends(a, b),
        a.len() == b.len(),
    ensures
        parents_ok(b),
{
    assert forall|i: int| 0 <= i < b.len() implies match #[trigger] parent_of(b[i]) {
        Some(p) => p < i && b[p as int] is Folder && depth_of(b[i]) == depth_of(b[p as int]) + 1,
        None => depth_of(b[i]) == 0,
    } by {
        assert(leaf_idx(b[i]) == leaf_idx(a[i]));
        assert(parent_of(a[i]) == parent_of(b[i]));
        match parent_of(a[i]) {
            Some(p) => {
                assert(leaf_idx(b[p as int]) == leaf_idx(a[p as int]));
            },
            None => {},
        }
    }
}

impl TreeView {
    /// Links node `idx` under `parent`, or among the roots.
    fn attach(&mut self, parent: Option<usize>, idx: usize)
        requires
            parent matches Some(p) ==> p < old(self).nodes@.len() && old(self).nodes@[p as int] is Folder,
            parents_ok(old(self).nodes@),
        ensures
            extends(old(self).nodes@, final(self).nodes@),
            final(self).nodes@.len() == old(self).nodes@.len(),
            parents_ok(final(self).nodes@),
            final(self).cursor == old(self).cursor,
            forest_of(final(self).nodes@, final(self).root_children@) == attach_v(
                forest_of(old(self).nodes@, old(self).root_children@),
                parent,
                idx,
            ),
    {
        match parent {
            None => {
                self.root_children.push(idx);
                assert(extends(old(self).nodes@, self.nodes@));
                assert(forest_of(self.nodes@, self.root_children@).nodes =~= forest_of(old(self).nodes@, old(self).root_children@).nodes);
            },
            Some(p) => {
                if let TreeNode::Folder { children, .. } = &mut self.nodes[p] {
                    children.push(idx);
                }
                assert(extends(old(self).nodes@, self.nodes@));
                assert(forest_of(self.nodes@, self.root_children@).nodes =~= attach_v(
                    forest_of(old(self).nodes@, old(self).root_children@),
                    parent,
                    idx,
                ).nodes);
                proof {
                    lemma_same_shape_parents_ok(old(self).nodes@, self.nodes@);
                }
            },
        }
    }

    /// The folder named `name` directly under `parent`, if there is one.
    fn find_folder(&self, parent: Option<usize>, name: &String) -> (r: Option<usize>)
        ensures
            r matches Some(f) ==> f < self.nodes@.len() && self.nodes@[f as int] is Folder && parent_of(
                self.nodes@[f as int],
            ) == parent,
            r == find_from(
                forest_of(self.nodes@, self.root_children@),
                parent,
                name@,
                child_list(forest_of(self.nodes@, self.root_children@), parent),
                0,
            ),
    {
        let ghost fo = forest_of(self.nodes@, self.root_children@);
        let list: &Vec<usize> = match parent {
            None => &self.root_children,
            Some(p) => {
                if p >= self.nodes.len() {
                    return None;
                }
                match &self.nodes[p] {
                    TreeNode::Folder { children, .. } => children,
                    TreeNode::File { .. } => {
                        return None;
                    },
                }
            },
        };
        assert(list@ == child_list(fo, parent));
        let mut k: usize = 0;
        while k < list.len()
            invariant
                k <= list@.len(),
                fo == forest_of(self.nodes@, self.root_children@),
                list@ == child_list(fo, parent),
                find_from(fo, parent, name@, list@, 0) == find_from(fo, parent, name@, list@, k as int),
            decreases list@.len() - k,
        {
            let c = list[k];
            if c < self.nodes.len() {
                assert(fo.nodes[c as int] == node_v(self.nodes@[c as int]));
                if let TreeNode::Folder { name: n, parent_idx, .. } = &self.nodes[c] {
                    let same_parent = match (parent_idx, parent) {
                        (Some(a), Some(b)) => *a == b,
                        (None, None) => true,
                        _ => false,
                    };
                    let same_name = n.eq(name);
                    assert(same_parent == (*parent_idx == parent));
                    if same_parent && same_name {
                        return Some(c);
                    }
                }
            }
            k = k + 1;
        }
        None
    }

    /// Inserts the leaf for artifact `comp_idx` at the path `parts`, creating
    /// the folders that do not exist yet.
    fn insert_path(&mut self, parts: &Vec<String>, comp_idx: usize)
        requires
            parts@.len() >= 1,
            parents_ok(old(self).nodes@),
            links_ok(forest_of(old(self).nodes@, old(self).root_children@)),
        ensures
            parents_ok(final(self).nodes@),
            links_ok(forest_of(final(self).nodes@, final(self).root_children@)),
            extends(old(self).nodes@, final(self).nodes@),
            has_leaf(final(self).nodes@, comp_idx),
            final(self).cursor == old(self).cursor,
            forest_of(final(self).nodes@, final(self).root_children@) == insert_from(
                forest_of(old(self).nodes@, old(self).root_children@),
                views(parts@),
                comp_idx,
                0,
                None,
                0,
                Seq::empty(),
            ),
    {
        let ghost parts_v = views(parts@);
        let ghost goal = insert_from(
            forest_of(old(self).nodes@, old(self).root_children@),
            parts_v,
            comp_idx,
            0,
            None,
            0,
            Seq::empty(),
        );
        let mut parent: Option<usize> = None;
        let mut depth: usize = 0;
        let mut path = String::new();
        let mut j: usize = 0;
        while j < parts.len() - 1
            invariant
                parts@.len() >= 1,
                j + 1 <= parts@.len(),
                parents_ok(self.nodes@),
                extends(old(self).nodes@, self.nodes@),
                depth <= j,
                self.cursor == old(self).cursor,
                parts_v == views(parts@),
                links_ok(forest_of(self.nodes@, self.root_children@)),
                goal == insert_from(forest_of(self.nodes@, self.root_children@), parts_v, comp_idx, j as int, parent, depth, path@),
                parent is None ==> depth == 0,
                parent matches Some(p) ==> p < self.nodes@.len() && self.nodes@[p as int] is Folder
                    && depth == depth_of(self.nodes@[p as int]) + 1,
            decreases parts@.len() - j,
        {
            let name = &parts[j];
            assert(parts_v[j as int] == name@);
            let folder_path = if j == 0 {
                owned(name.as_str())
            } else {
                concat3(path.as_str(), "/", name.as_str())
            };
            let idx = match self.find_folder(parent, name) {
                Some(f) => {
                    assert(parent_of(self.nodes@[f as int]) == parent);
                    f
                },
                None => {
                    let ghost before = self.nodes@;
                    let ghost fbefore = forest_of(self.nodes@, self.root_children@);
                    let idx = self.nodes.len();
                    self.nodes.push(
                        TreeNode::Folder {
                            name: owned(name.as_str()),
                            path: owned(folder_path.as_str()),
                            expanded: true,
                            children: Vec::new(),
                            depth,
                            parent_idx: parent,
                        },
                    );
                    assert(extends(before, self.nodes@));
                    assert(parents_ok(self.nodes@)) by {
                        assert forall|i: int| 0 <= i < self.nodes@.len() implies match #[trigger] parent_of(
                            self.nodes@[i],
                        ) {
                            Some(p) => p < i && self.nodes@[p as int] is Folder && depth_of(self.nodes@[i])
                                == depth_of(self.nodes@[p as int]) + 1,
                            None => depth_of(self.nodes@[i]) == 0,
                        } by {
                            if i < before.len() {
                                assert(leaf_idx(self.nodes@[i]) == leaf_idx(before[i]));
                                match parent_of(before[i]) {
                                    Some(p) => {
                                        assert(leaf_idx(self.nodes@[p as int]) == leaf_idx(before[p as int]));
                                    },
                                    None => {},
                                }
                            }
                        }
                    }
                    let ghost mid = self.nodes@;
                    let _len = self.nodes.len();
                    assert(forest_of(self.nodes@, self.root_children@).nodes =~= fbefore.nodes.push(
                        NodeV::Folder { name: name@, path: folder_path@, expanded: true, children: Seq::empty(), depth, parent },
                    ));
                    proof {
                        if let Some(p) = parent {
                            assert(fbefore.nodes[p as int] == node_v(before[p as int]));
                        }
                        lemma_add_node_links(
                            fbefore,
                            NodeV::Folder { name: name@, path: folder_path@, expanded: true, children: Seq::empty(), depth, parent },
                            parent,
                        );
                    }
                    self.attach(parent, idx);
                    proof {
                        assert(leaf_idx(self.nodes@[idx as int]) == leaf_idx(mid[idx as int]));
                        lemma_extends_trans(before, mid, self.nodes@);
                        lemma_extends_trans(old(self).nodes@, before, self.nodes@);
                    }
                    idx
                },
            };
            path = folder_path;
            parent = Some(idx);
            depth = depth + 1;
            j = j + 1;
        }
        let ghost before = self.nodes@;
        let ghost fbefore = forest_of(self.nodes@, self.root_children@);
        let node_idx = self.nodes.len();
        self.nodes.push(TreeNode::File { component_idx: comp_idx, depth, parent_idx: parent });
        let _len = self.nodes.len();
        assert(forest_of(self.nodes@, self.root_children@).nodes =~= fbefore.nodes.push(
            NodeV::File { component_idx: comp_idx, depth, parent },
        ));
        proof {
            if let Some(p) = parent {
                assert(fbefore.nodes[p as int] == node_v(before[p as int]));
            }
            lemma_add_node_links(fbefore, NodeV::File { component_idx: comp_idx, depth, parent }, parent);
        }
        assert(extends(before, self.nodes@));
        assert(parents_ok(self.nodes@)) by {
            assert forall|i: int| 0 <= i < self.nodes@.len() implies match #[trigger] parent_of(
                self.nodes@[i],
            ) {
                Some(p) => p < i && self.nodes@[p as int] is Folder && depth_of(self.nodes@[i])
                    == depth_of(self.nodes@[p as int]) + 1,
                None => depth_of(self.nodes@[i]) == 0,
            } by {
                if i < before.len() {
                    assert(leaf_idx(self.nodes@[i]) == leaf_idx(before[i]));
                    match parent_of(before[i]) {
                        Some(p) => {
                            assert(leaf_idx(self.nodes@[p as int]) == leaf_idx(before[p as int]));
                        },
                        None => {},
                    }
                }
            }
        }
        let ghost mid = self.nodes@;
        assert(leaf_idx(mid[node_idx as int]) == Some(comp_idx));
        self.attach(parent, node_idx);
        proof {
            assert(leaf_idx(self.nodes@[node_idx as int]) == leaf_idx(mid[node_idx as int]));
            lemma_extends_trans(before, mid, self.nodes@);
            lemma_extends_trans(old(self).nodes@, before, self.nodes@);
        }
    }

    /// Builds the tree of the given artifacts from their names, split at `/`
    /// and `\\`. The artifacts are inserted in order (see `built`): there is
    /// one folder per distinct path prefix, named after its last segment and
    /// created expanded the first time the prefix occurs, then reused; each
    /// artifact gets one leaf under its folder chain, at depth = segments - 1;
    /// every child list keeps insertion order. So the arena holds exactly the
    /// distinct prefixes and the artifacts, and the cursor starts on the first row.
    pub fn build_from_components(
        _components: &[Component],
        filtered_indices: &[(usize, &Component)],
    ) -> (r: TreeView)
        ensures
            r.wf(),
            r.cursor == 0,
            forest_of(r.nodes@, r.root_children@) == built(filtered_indices@, filtered_indices@.len() as int),
            forall|t: int|
                0 <= t < filtered_indices@.len() ==> has_leaf(r.nodes@, (#[trigger] filtered_indices@[t]).0),
    {
        let mut tree = TreeView::default();
        assert(forest_of(tree.nodes@, tree.root_children@).nodes =~= Seq::<NodeV>::empty());
        assert(tree.root_children@ =~= Seq::<usize>::empty());
        assert(forest_of(tree.nodes@, tree.root_children@) == built(filtered_indices@, 0));
        if filtered_indices.len() == 0 {
            tree.rebuild_visible();
            return tree;
        }
        let mut k: usize = 0;
        while k < filtered_indices.len()
            invariant
                k <= filtered_indices@.len(),
                parents_ok(tree.nodes@),
                tree.cursor == 0,
                forest_of(tree.nodes@, tree.root_children@) == built(filtered_indices@, k as int),
                links_ok(forest_of(tree.nodes@, tree.root_children@)),
                forall|t: int| 0 <= t < k ==> has_leaf(tree.nodes@, (#[trigger] filtered_indices@[t]).0),
            decreases filtered_indices@.len() - k,
        {
            let (comp_idx, comp) = filtered_indices[k];
            let parts = split_path(comp.name.as_str());
            let ghost before = tree.nodes@;
            tree.insert_path(&parts, comp_idx);
            proof {
                lemma_extends_keeps_leaves(before, tree.nodes@);
            }
            k = k + 1;
        }
        tree.rebuild_visible();
        tree
    }
}



impl TreeView {
    /// `f` is `o` after flipping the folder under the cursor, if it is on one.
    pub open spec fn toggle_expand_post(o: TreeView, f: TreeView) -> bool {
        match o.cursor_node() {
            Some(j) if o.nodes@[j] is Folder => Self::rebuilt(
                o,
                o.nodes@.update(j, with_expanded(o.nodes@[j], !is_open_folder(o.nodes@[j]))),
                f,
            ),
            _ => f == o,
        }
    }

    /// `f` is `o` after expanding the collapsed folder under the cursor, if any.
    pub open spec fn expand_post(o: TreeView, f: TreeView) -> bool {
        match o.cursor_node() {
            Some(j) if o.nodes@[j] is Folder && !is_open_folder(o.nodes@[j]) => Self::rebuilt(
                o,
                o.nodes@.update(j, with_expanded(o.nodes@[j], true)),
                f,
            ),
            _ => f == o,
        }
    }

    /// `f` is `o` after collapsing the expanded folder under the cursor, if any.
    pub open spec fn collapse_post(o: TreeView, f: TreeView) -> bool {
        match o.cursor_node() {
            Some(j) if is_open_folder(o.nodes@[j]) => Self::rebuilt(
                o,
                o.nodes@.update(j, with_expanded(o.nodes@[j], false)),
                f,
            ),
            _ => f == o,
        }
    }

    /// `f` is `o` after collapsing the expanded parent of the node under the
    /// cursor, with the cursor moved onto that parent; without such a parent,
    /// `f` is `o`.
    pub open spec fn collapse_parent_post(o: TreeView, f: TreeView) -> bool {
        match o.open_parent() {
            Some(p) => {
                &&& f.nodes@ == o.nodes@.update(p, with_expanded(o.nodes@[p], false))
                &&& f.root_children@ == o.root_children@
                &&& f.visible_indices@ == visible_of(f.nodes@, f.root_children@)
                &&& f.cursor < f.visible_indices@.len()
                &&& f.visible_indices@[f.cursor as int] == p
            },
            None => f == o,
        }
    }

    /// `f` is `o` with the cursor one row down, wrapping to the top.
    pub open spec fn next_post(o: TreeView, f: TreeView) -> bool {
        &&& f.nodes == o.nodes
        &&& f.visible_indices == o.visible_indices
        &&& f.root_children == o.root_children
        &&& o.visible_indices@.len() > 0 ==> f.cursor == (o.cursor + 1) % (o.visible_indices@.len() as int)
        &&& o.visible_indices@.len() == 0 ==> f.cursor == o.cursor
    }

    /// `f` is `o` with the cursor one row up, wrapping to the bottom.
    pub open spec fn prev_post(o: TreeView, f: TreeView) -> bool {
        &&& f.nodes == o.nodes
        &&& f.visible_indices == o.visible_indices
        &&& f.root_children == o.root_children
        &&& o.visible_indices@.len() > 0 ==> f.cursor == (if o.cursor == 0 {
            o.visible_indices@.len() - 1
        } else {
            o.cursor - 1
        })
        &&& o.visible_indices@.len() == 0 ==> f.cursor == o.cursor
    }
}

/// The contents of a node.
pub enum NodeV {
    Folder {
        name: Seq<char>,
        path: Seq<char>,
        expanded: bool,
        children: Seq<usize>,
        depth: usize,
        parent: Option<usize>,
    },
    File { component_idx: usize, depth: usize, parent: Option<usize> },
}

pub open spec fn node_v(n: TreeNode) -> NodeV {
    match n {
        TreeNode::Folder { name, path, expanded, children, depth, parent_idx } => NodeV::Folder {
            name: name@,
            path: path@,
            expanded,
            children: children@,
            depth,
            parent: parent_idx,
        },
        TreeNode::File { component_idx, depth, parent_idx } => NodeV::File {
            component_idx,
            depth,
            parent: parent_idx,
        },
    }
}

/// The contents of a forest: its nodes and its roots.
pub struct ForestV {
    pub nodes: Seq<NodeV>,
    pub roots: Seq<usize>,
}

pub open spec fn forest_of(nodes: Seq<TreeNode>, roots: Seq<usize>) -> ForestV {
    ForestV { nodes: nodes.map_values(|n: TreeNode| node_v(n)), roots }
}

/// The path segments of a name, split at every separator.
pub open spec fn segments(s: Seq<char>) -> Seq<Seq<char>>
    decreases s.len(),
{
    if s.len() == 0 {
        seq![Seq::empty()]
    } else {
        let prev = segments(s.drop_last());
        if is_sep(s.last()) {
            prev.push(Seq::empty())
        } else {
            prev.update(prev.len() - 1, prev.last().push(s.last()))
        }
    }
}

proof fn lemma_segments_nonempty(s: Seq<char>)
    ensures
        segments(s).len() >= 1,
    decreases s.len(),
{
    if s.len() > 0 {
        lemma_segments_nonempty(s.drop_last());
    }
}

/// The nodes listed directly under `parent` (the roots for `None`).
pub open spec fn child_list(f: ForestV, parent: Option<usize>) -> Seq<usize> {
    match parent {
        None => f.roots,
        Some(p) => if p < f.nodes.len() {
            match f.nodes[p as int] {
                NodeV::Folder { children, .. } => children,
                NodeV::File { .. } => Seq::empty(),
            }
        } else {
            Seq::empty()
        },
    }
}

/// Node `c` is the folder `name` under `parent`.
pub open spec fn is_folder_named(f: ForestV, parent: Option<usize>, name: Seq<char>, c: usize) -> bool {
    &&& c < f.nodes.len()
    &&& f.nodes[c as int] matches NodeV::Folder { name: n, parent: q, .. }
    &&& q == parent
    &&& n == name
}

/// The first entry of `list`, from `k` on, that is the folder `name` under `parent`.
pub open spec fn find_from(f: ForestV, parent: Option<usize>, name: Seq<char>, list: Seq<usize>, k: int) -> Option<usize>
    decreases list.len() - k,
{
    if k < 0 || k >= list.len() {
        None
    } else if is_folder_named(f, parent, name, list[k]) {
        Some(list[k])
    } else {
        find_from(f, parent, name, list, k + 1)
    }
}

/// Lists node `idx` last under `parent`.
pub open spec fn attach_v(f: ForestV, parent: Option<usize>, idx: usize) -> ForestV {
    match parent {
        None => ForestV { nodes: f.nodes, roots: f.roots.push(idx) },
        Some(p) => if p < f.nodes.len() {
            match f.nodes[p as int] {
                NodeV::Folder { name, path, expanded, children, depth, parent } => ForestV {
                    nodes: f.nodes.update(p as int, NodeV::Folder { name, path, expanded, children: children.push(idx), depth, parent }),
                    roots: f.roots,
                },
                NodeV::File { .. } => f,
            }
        } else {
            f
        },
    }
}

/// Inserting the leaf of artifact `comp` at the segments `parts`, from
/// segment `j` on, under `parent`: each folder segment reuses the folder of
/// that name under the parent, or creates it expanded, listed last; the
/// leaf is listed last under the deepest folder.
pub open spec fn insert_from(
    f: ForestV,
    parts: Seq<Seq<char>>,
    comp: usize,
    j: int,
    parent: Option<usize>,
    depth: usize,
    path: Seq<char>,
) -> ForestV
    decreases parts.len() - j,
{
    if j < 0 || j + 1 >= parts.len() {
        let idx = f.nodes.len() as usize;
        attach_v(
            ForestV { nodes: f.nodes.push(NodeV::File { component_idx: comp, depth, parent }), roots: f.roots },
            parent,
            idx,
        )
    } else {
        let name = parts[j];
        let fpath = if j == 0 { name } else { path + "/"@ + name };
        match find_from(f, parent, name, child_list(f, parent), 0) {
            Some(c) => insert_from(f, parts, comp, j + 1, Some(c), (depth + 1) as usize, fpath),
            None => {
                let idx = f.nodes.len() as usize;
                let f2 = ForestV {
                    nodes: f.nodes.push(
                        NodeV::Folder { name, path: fpath, expanded: true, children: Seq::empty(), depth, parent },
                    ),
                    roots: f.roots,
                };
                insert_from(attach_v(f2, parent, idx), parts, comp, j + 1, Some(idx), (depth + 1) as usize, fpath)
            },
        }
    }
}

/// The forest built from the first `n` artifacts, in order.
pub open spec fn built(filtered: Seq<(usize, &Component)>, n: int) -> ForestV
    decreases n,
{
    if n <= 0 {
        ForestV { nodes: Seq::empty(), roots: Seq::empty() }
    } else {
        insert_from(built(filtered, n - 1), segments(filtered[n - 1].1.name@), filtered[n - 1].0, 0, None, 0, Seq::empty())
    }
}

pub open spec fn children_v(n: NodeV) -> Seq<usize> {
    match n {
        NodeV::Folder { children, .. } => children,
        NodeV::File { .. } => Seq::empty(),
    }
}

pub open spec fn parent_v(n: NodeV) -> Option<usize> {
    match n {
        NodeV::Folder { parent, .. } => parent,
        NodeV::File { parent, .. } => parent,
    }
}

/// Child lists and parent links agree: a node is listed under `p` exactly
/// when its parent is `p`, and among the roots exactly when it has none;
/// children come after their parent in the arena.
pub open spec fn links_ok(f: ForestV) -> bool {
    &&& forall|p: int, k: int|
        0 <= p < f.nodes.len() && 0 <= k < children_v(f.nodes[p]).len() ==> {
            let c = #[trigger] children_v(f.nodes[p])[k];
            p < c < f.nodes.len() && parent_v(f.nodes[c as int]) == Some(p as usize)
        }
    &&& forall|k: int|
        0 <= k < f.roots.len() ==> (#[trigger] f.roots[k]) < f.nodes.len() && parent_v(f.nodes[f.roots[k] as int]) is None
    &&& forall|x: int|
        0 <= x < f.nodes.len() ==> match #[trigger] parent_v(f.nodes[x]) {
            Some(p) => p < x && children_v(f.nodes[p as int]).contains(x as usize),
            None => f.roots.contains(x as usize),
        }
}

/// Adding a childless node last and listing it under its parent keeps the
/// links consistent.
proof fn lemma_add_node_links(f: ForestV, node: NodeV, parent: Option<usize>)
    requires
        links_ok(f),
        f.nodes.len() < usize::MAX,
        children_v(node).len() == 0,
        parent_v(node) == parent,
        parent matches Some(p) ==> p < f.nodes.len() && f.nodes[p as int] is Folder,
    ensures
        links_ok(attach_v(ForestV { nodes: f.nodes.push(node), roots: f.roots }, parent, f.nodes.len() as usize)),
{
    let idx = f.nodes.len() as usize;
    let f2 = ForestV { nodes: f.nodes.push(node), roots: f.roots };
    let g = attach_v(f2, parent, idx);
    assert(g.nodes.len() == f.nodes.len() + 1);
    assert forall|x: int| 0 <= x < g.nodes.len() implies parent_v(#[trigger] g.nodes[x]) == parent_v(f2.nodes[x]) by {}
    assert forall|p: int, k: int| 0 <= p < g.nodes.len() && 0 <= k < children_v(g.nodes[p]).len() implies {
        let c = #[trigger] children_v(g.nodes[p])[k];
        p < c < g.nodes.len() && parent_v(g.nodes[c as int]) == Some(p as usize)
    } by {
        assert(parent_v(g.nodes[p]) == parent_v(f2.nodes[p]));
        if parent == Some(p as usize) {
            if k < children_v(f.nodes[p]).len() {
                assert(children_v(g.nodes[p])[k] == children_v(f.nodes[p])[k]);
                let c = children_v(f.nodes[p])[k];
                assert(parent_v(g.nodes[c as int]) == parent_v(f2.nodes[c as int]));
            } else {
                assert(children_v(g.nodes[p])[k] == idx);
                assert(g.nodes[idx as int] == node);
            }
        } else {
            if p < f.nodes.len() {
                assert(children_v(g.nodes[p]) == children_v(f.nodes[p]));
                let c = children_v(f.nodes[p])[k];
                assert(parent_v(g.nodes[c as int]) == parent_v(f2.nodes[c as int]));
            }
        }
    }
    assert forall|k: int| 0 <= k < g.roots.len() implies (#[trigger] g.roots[k]) < g.nodes.len() && parent_v(
        g.nodes[g.roots[k] as int],
    ) is None by {
        if k < f.roots.len() {
            assert(g.roots[k] == f.roots[k]);
            assert(parent_v(g.nodes[f.roots[k] as int]) == parent_v(f2.nodes[f.roots[k] as int]));
        } else {
            assert(g.roots[k] == idx);
            assert(g.nodes[idx as int] == node);
        }
    }
    assert forall|x: int| 0 <= x < g.nodes.len() implies match #[trigger] parent_v(g.nodes[x]) {
        Some(p) => p < x && children_v(g.nodes[p as int]).contains(x as usize),
        None => g.roots.contains(x as usize),
    } by {
        assert(parent_v(g.nodes[x]) == parent_v(f2.nodes[x]));
        if x < f.nodes.len() {
            match parent_v(f.nodes[x]) {
                Some(p) => {
                    let k = choose|k: int| 0 <= k < children_v(f.nodes[p as int]).len() && children_v(f.nodes[p as int])[k] == x as usize;
                    if parent == Some(p) {
                        assert(children_v(g.nodes[p as int])[k] == x as usize);
                    } else {
                        assert(children_v(g.nodes[p as int]) == children_v(f.nodes[p as int]));
                    }
                },
                None => {
                    let k = choose|k: int| 0 <= k < f.roots.len() && f.roots[k] == x as usize;
                    assert(g.roots[k] == x as usize);
                },
            }
        } else {
            match parent {
                Some(p) => {
                    assert(children_v(g.nodes[p as int]).last() == x as usize);
                },
                None => {
                    assert(g.roots.last() == x as usize);
                },
            }
        }
    }
}

/// Every ancestor of node `x` is an expanded folder.
pub open spec fn ancestors_open(nodes: Seq<TreeNode>, x: int) -> bool
    decreases x,
{
    if 0 <= x < nodes.len() {
        match parent_of(nodes[x]) {
            Some(p) => if p < x {
                is_open_folder(nodes[p as int]) && ancestors_open(nodes, p as int)
            } else {
                false
            },
            None => true,
        }
    } else {
        false
    }
}

/// `x` is `i`, or below `i` through expanded folders only.
pub open spec fn open_chain(nodes: Seq<TreeNode>, x: int, i: int) -> bool
    decreases x,
{
    if x == i {
        true
    } else if 0 <= x < nodes.len() {
        match parent_of(nodes[x]) {
            Some(p) => p < x && is_open_folder(nodes[p as int]) && open_chain(nodes, p as int, i),
            None => false,
        }
    } else {
        false
    }
}

proof fn lemma_links_tree(nodes: Seq<TreeNode>, roots: Seq<usize>)
    requires
        links_ok(forest_of(nodes, roots)),
    ensures
        forall|p: int, k: int|
            0 <= p < nodes.len() && 0 <= k < children_of(nodes[p]).len() ==> {
                let c = #[trigger] children_of(nodes[p])[k];
                p < c < nodes.len() && parent_of(nodes[c as int]) == Some(p as usize)
            },
        forall|k: int| 0 <= k < roots.len() ==> (#[trigger] roots[k]) < nodes.len() && parent_of(nodes[roots[k] as int]) is None,
        forall|x: int|
            0 <= x < nodes.len() ==> match #[trigger] parent_of(nodes[x]) {
                Some(p) => p < x && children_of(nodes[p as int]).contains(x as usize),
                None => roots.contains(x as usize),
            },
{
    let f = forest_of(nodes, roots);
    assert forall|i: int| 0 <= i < nodes.len() implies #[trigger] children_v(f.nodes[i]) == children_of(nodes[i])
        && parent_v(f.nodes[i]) == parent_of(nodes[i]) by {}
    assert forall|p: int, k: int| 0 <= p < nodes.len() && 0 <= k < children_of(nodes[p]).len() implies {
        let c = #[trigger] children_of(nodes[p])[k];
        p < c < nodes.len() && parent_of(nodes[c as int]) == Some(p as usize)
    } by {
        assert(children_v(f.nodes[p]) == children_of(nodes[p]));
        let c = children_v(f.nodes[p])[k];
        assert(parent_v(f.nodes[c as int]) == parent_of(nodes[c as int]));
    }
    assert forall|k: int| 0 <= k < roots.len() implies (#[trigger] roots[k]) < nodes.len() && parent_of(nodes[roots[k] as int]) is None by {
        assert(f.roots[k] == roots[k]);
        assert(parent_v(f.nodes[roots[k] as int]) == parent_of(nodes[roots[k] as int]));
    }
    assert forall|x: int| 0 <= x < nodes.len() implies match #[trigger] parent_of(nodes[x]) {
        Some(p) => p < x && children_of(nodes[p as int]).contains(x as usize),
        None => roots.contains(x as usize),
    } by {
        assert(parent_v(f.nodes[x]) == parent_of(nodes[x]));
        match parent_of(nodes[x]) {
            Some(p) => {
                assert(children_v(f.nodes[p as int]) == children_of(nodes[p as int]));
            },
            None => {},
        }
    }
}

/// A node is in a list's walk exactly when it is in the walk of one of the
/// followed entries.
proof fn lemma_vis_list_contains(nodes: Seq<TreeNode>, cs: Seq<usize>, above: int, k: int, z: usize)
    requires
        0 <= k <= cs.len(),
    ensures
        vis_list(nodes, cs, above, k).contains(z) <==> exists|t: int|
            0 <= t < k && above < cs[t] < nodes.len() && #[trigger] vis_node(nodes, cs[t] as int).contains(z),
    decreases k,
{
    if k > 0 {
        lemma_vis_list_contains(nodes, cs, above, k - 1, z);
        let a = vis_list(nodes, cs, above, k - 1);
        let b = if above < cs[k - 1] < nodes.len() { vis_node(nodes, cs[k - 1] as int) } else { Seq::empty() };
        assert(vis_list(nodes, cs, above, k) == a + b);
        if vis_list(nodes, cs, above, k).contains(z) {
            let j = choose|j: int| 0 <= j < (a + b).len() && (a + b)[j] == z;
            if j < a.len() {
                assert(a[j] == z);
                assert(a.contains(z));
            } else {
                assert(b[j - a.len()] == z);
                assert(above < cs[k - 1] < nodes.len());
                assert(vis_node(nodes, cs[k - 1] as int).contains(z));
            }
        }
        if exists|t: int| 0 <= t < k && above < cs[t] < nodes.len() && #[trigger] vis_node(nodes, cs[t] as int).contains(z) {
            let t = choose|t: int| 0 <= t < k && above < cs[t] < nodes.len() && #[trigger] vis_node(nodes, cs[t] as int).contains(z);
            if t < k - 1 {
                assert(exists|t2: int| 0 <= t2 < k - 1 && above < cs[t2] < nodes.len() && #[trigger] vis_node(nodes, cs[t2] as int).contains(z));
                assert(a.contains(z));
                let j = choose|j: int| 0 <= j < a.len() && a[j] == z;
                assert((a + b)[j] == z);
            } else {
                let j = choose|j: int| 0 <= j < b.len() && b[j] == z;
                assert((a + b)[a.len() + j] == z);
            }
        }
    }
}

/// The walk from a node contains the walk from every node in it.
proof fn lemma_vis_sub(nodes: Seq<TreeNode>, i: int, p: usize, z: usize)
    requires
        nodes.len() <= usize::MAX,
        vis_node(nodes, i).contains(p),
        vis_node(nodes, p as int).contains(z),
    ensures
        vis_node(nodes, i).contains(z),
    decreases nodes.len() - i,
{
    if 0 <= i < nodes.len() && p as int != i && is_open_folder(nodes[i]) {
        let cs = children_of(nodes[i]);
        let l = vis_list(nodes, cs, i, cs.len() as int);
        assert(vis_node(nodes, i) == seq![i as usize] + l);
        let j = choose|j: int| 0 <= j < vis_node(nodes, i).len() && vis_node(nodes, i)[j] == p;
        assert(vis_node(nodes, i)[0] == i as usize);
        assert(j > 0);
        assert(l[j - 1] == p);
        lemma_vis_list_contains(nodes, cs, i, cs.len() as int, p);
        let t = choose|t: int| 0 <= t < cs.len() && i < cs[t] < nodes.len() && #[trigger] vis_node(nodes, cs[t] as int).contains(p);
        lemma_vis_sub(nodes, cs[t] as int, p, z);
        lemma_vis_list_contains(nodes, cs, i, cs.len() as int, z);
        let j2 = choose|j2: int| 0 <= j2 < l.len() && l[j2] == z;
        assert(vis_node(nodes, i)[j2 + 1] == z);
    } else if 0 <= i < nodes.len() && p as int != i {
        assert(vis_node(nodes, i) == seq![i as usize]);
        assert(vis_node(nodes, i)[0] == i as usize);
    }
}

proof fn lemma_vis_head(nodes: Seq<TreeNode>, i: int)
    requires
        0 <= i < nodes.len(),
    ensures
        vis_node(nodes, i).contains(i as usize),
{
    assert(vis_node(nodes, i)[0] == i as usize);
}

/// A node below `i` through expanded folders is in the walk from `i`.
proof fn lemma_chain_visible(nodes: Seq<TreeNode>, roots: Seq<usize>, x: int, i: int)
    requires
        links_ok(forest_of(nodes, roots)),
        nodes.len() <= usize::MAX,
        0 <= i < nodes.len(),
        open_chain(nodes, x, i),
    ensures
        vis_node(nodes, i).contains(x as usize),
    decreases x,
{
    lemma_links_tree(nodes, roots);
    if x == i {
        lemma_vis_head(nodes, i);
    } else {
        let p = parent_of(nodes[x])->0;
        lemma_chain_visible(nodes, roots, p as int, i);
        let cs = children_of(nodes[p as int]);
        assert(cs.contains(x as usize));
        let t = choose|t: int| 0 <= t < cs.len() && cs[t] == x as usize;
        lemma_vis_head(nodes, x);
        assert(vis_node(nodes, cs[t] as int).contains(x as usize));
        lemma_vis_list_contains(nodes, cs, p as int, cs.len() as int, x as usize);
        let l = vis_list(nodes, cs, p as int, cs.len() as int);
        let j = choose|j: int| 0 <= j < l.len() && l[j] == x as usize;
        assert(vis_node(nodes, p as int) == seq![p] + l);
        assert(vis_node(nodes, p as int)[j + 1] == x as usize);
        lemma_vis_sub(nodes, i, p, x as usize);
    }
}

proof fn lemma_root_of(nodes: Seq<TreeNode>, x: int) -> (r: int)
    requires
        ancestors_open(nodes, x),
    ensures
        0 <= r < nodes.len(),
        parent_of(nodes[r]) is None,
        open_chain(nodes, x, r),
    decreases x,
{
    match parent_of(nodes[x]) {
        Some(p) => {
            let r = lemma_root_of(nodes, p as int);
            r
        },
        None => x,
    }
}

/// Every node whose ancestors are all expanded folders is visible.
pub proof fn lemma_open_ancestors_visible(nodes: Seq<TreeNode>, roots: Seq<usize>, x: int)
    requires
        links_ok(forest_of(nodes, roots)),
        nodes.len() <= usize::MAX,
        ancestors_open(nodes, x),
    ensures
        visible_of(nodes, roots).contains(x as usize),
{
    lemma_links_tree(nodes, roots);
    let r = lemma_root_of(nodes, x);
    lemma_chain_visible(nodes, roots, x, r);
    assert(roots.contains(r as usize));
    let t = choose|t: int| 0 <= t < roots.len() && roots[t] == r as usize;
    assert(vis_node(nodes, roots[t] as int).contains(x as usize));
    lemma_vis_list_contains(nodes, roots, -1, roots.len() as int, x as usize);
}

/// Every visible node has only expanded folders as ancestors.
pub proof fn lemma_visible_ancestors_open(nodes: Seq<TreeNode>, roots: Seq<usize>, x: usize)
    requires
        links_ok(forest_of(nodes, roots)),
        nodes.len() <= usize::MAX,
        visible_of(nodes, roots).contains(x),
    ensures
        ancestors_open(nodes, x as int),
{
    lemma_links_tree(nodes, roots);
    lemma_vis_list_contains(nodes, roots, -1, roots.len() as int, x);
    let t = choose|t: int| 0 <= t < roots.len() && -1 < roots[t] < nodes.len() && #[trigger] vis_node(nodes, roots[t] as int).contains(x);
    lemma_walk_sound(nodes, roots, roots[t] as int, x);
}

proof fn lemma_walk_sound(nodes: Seq<TreeNode>, roots: Seq<usize>, i: int, x: usize)
    requires
        links_ok(forest_of(nodes, roots)),
        nodes.len() <= usize::MAX,
        ancestors_open(nodes, i),
        vis_node(nodes, i).contains(x),
    ensures
        ancestors_open(nodes, x as int),
    decreases nodes.len() - i,
{
    lemma_links_tree(nodes, roots);
    if x as int != i {
        if is_open_folder(nodes[i]) {
            let cs = children_of(nodes[i]);
            let l = vis_list(nodes, cs, i, cs.len() as int);
            assert(vis_node(nodes, i) == seq![i as usize] + l);
            let j = choose|j: int| 0 <= j < vis_node(nodes, i).len() && vis_node(nodes, i)[j] == x;
            assert(vis_node(nodes, i)[0] == i as usize);
            assert(j > 0);
            assert(l[j - 1] == x);
            lemma_vis_list_contains(nodes, cs, i, cs.len() as int, x);
            let t = choose|t: int| 0 <= t < cs.len() && i < cs[t] < nodes.len() && #[trigger] vis_node(nodes, cs[t] as int).contains(x);
            let c = cs[t];
            assert(children_of(nodes[i])[t] == c);
            assert(parent_of(nodes[c as int]) == Some(i as usize));
            assert(ancestors_open(nodes, c as int));
            lemma_walk_sound(nodes, roots, c as int, x);
        } else {
            assert(vis_node(nodes, i) == seq![i as usize]);
            assert(vis_node(nodes, i)[0] == i as usize);
        }
    }
}

/// Changing the `expanded` flag of node `p` does not change whether the
/// nodes up to `p` have only expanded ancestors.
proof fn lemma_ancestors_open_update(nodes: Seq<TreeNode>, p: int, x: int, e: bool)
    requires
        0 <= p < nodes.len(),
        x <= p,
    ensures
        ancestors_open(nodes.update(p, with_expanded(nodes[p], e)), x) == ancestors_open(nodes, x),
    decreases x,
{
    let n2 = nodes.update(p, with_expanded(nodes[p], e));
    if 0 <= x < nodes.len() {
        assert(parent_of(n2[x]) == parent_of(nodes[x]));
        match parent_of(nodes[x]) {
            Some(q) => {
                if q < x {
                    assert(n2[q as int] == nodes[q as int]);
                    lemma_ancestors_open_update(nodes, p, q as int, e);
                }
            },
            None => {},
        }
    }
}

/// A node is visible exactly when every one of its ancestors is an expanded
/// folder.
pub proof fn lemma_visible_iff_ancestors_open(t: TreeView, x: int)
    requires
        t.wf(),
        t.nodes@.len() <= usize::MAX,
        0 <= x < t.nodes@.len(),
    ensures
        t.visible_indices@.contains(x as usize) <==> ancestors_open(t.nodes@, x),
{
    if t.visible_indices@.contains(x as usize) {
        lemma_visible_ancestors_open(t.nodes@, t.root_children@, x as usize);
    }
    if ancestors_open(t.nodes@, x) {
        lemma_open_ancestors_visible(t.nodes@, t.root_children@, x);
    }
}

/// Node `f` is a strict ancestor of node `x`.
pub open spec fn is_ancestor(nodes: Seq<TreeNode>, f: int, x: int) -> bool
    decreases x,
{
    if 0 <= x < nodes.len() {
        match parent_of(nodes[x]) {
            Some(p) => p < x && (p == f || is_ancestor(nodes, f, p as int)),
            None => false,
        }
    } else {
        false
    }
}

proof fn lemma_closed_ancestor(nodes: Seq<TreeNode>, f: int, x: int)
    requires
        is_ancestor(nodes, f, x),
        !is_open_folder(nodes[f]),
    ensures
        !ancestors_open(nodes, x),
    decreases x,
{
    let p = parent_of(nodes[x])->0;
    if p as int != f {
        lemma_closed_ancestor(nodes, f, p as int);
    }
}

/// Once folder `f` is collapsed, none of the nodes below it is visible.
pub proof fn lemma_collapsed_subtree_hidden(t: TreeView, f: int, x: int)
    requires
        t.wf(),
        t.nodes@.len() <= usize::MAX,
        0 <= f < t.nodes@.len(),
        !is_open_folder(t.nodes@[f]),
        is_ancestor(t.nodes@, f, x),
    ensures
        !t.visible_indices@.contains(x as usize),
{
    lemma_closed_ancestor(t.nodes@, f, x);
    lemma_visible_iff_ancestors_open(t, x);
}

} // verus!
