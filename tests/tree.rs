use installer::component::{Component, ComponentType, InstallStatus};
use installer::tree::{split_path, TreeNode, TreeView};

fn make_component(name: &str) -> Component {
    Component::new(
        ComponentType::Skills,
        name.to_string(),
        name.to_string(),
        name.to_string(),
        InstallStatus::New,
    )
}

fn build(components: &[Component]) -> TreeView {
    let filtered: Vec<(usize, &Component)> = components.iter().enumerate().collect();
    TreeView::build_from_components(components, &filtered)
}

#[test]
fn test_tree_build() {
    let components = vec![
        make_component("file1.md"),
        make_component("folder/file2.md"),
        make_component("folder/sub/file3.md"),
    ];
    let tree = build(&components);
    assert!(!tree.nodes.is_empty());
    assert!(!tree.visible_indices.is_empty());
}

#[test]
fn test_folder_collapse() {
    let components = vec![make_component("folder/file1.md"), make_component("folder/file2.md")];
    let mut tree = build(&components);
    let initial_visible = tree.visible_indices.len();
    tree.collapse();
    tree.rebuild_visible();
    assert!(tree.visible_indices.len() < initial_visible);
}

#[test]
fn test_tree_debug() {
    let components = vec![
        make_component("style-notes.md"),
        make_component("web-guides/GUIDE.md"),
        make_component("web-guides/rules/async-api-routes.md"),
    ];
    let tree = build(&components);
    println!("Nodes: {:?}", tree.nodes.len());
    println!("Root children: {:?}", tree.root_children);
    println!("Visible: {:?}", tree.visible_indices);
    for (i, node) in tree.nodes.iter().enumerate() {
        println!("Node {}: {:?}", i, node);
    }
    assert!(tree.nodes.len() > 3);
}

#[test]
fn build_reuses_folders_and_keeps_order() {
    let components = vec![
        make_component("file1.md"),
        make_component("folder/file2.md"),
        make_component("folder/sub/file3.md"),
        make_component("folder\\file4.md"),
    ];
    let tree = build(&components);
    // file1, folder, file2, sub, file3, file4
    assert_eq!(tree.nodes.len(), 6);
    assert_eq!(tree.visible_indices, vec![0, 1, 2, 3, 4, 5]);
    assert_eq!(tree.root_children, vec![0, 1]);
    match &tree.nodes[1] {
        TreeNode::Folder { name, children, depth, parent_idx, expanded, .. } => {
            assert_eq!(name, "folder");
            assert_eq!(children, &vec![2, 3, 5]);
            assert_eq!(*depth, 0);
            assert_eq!(*parent_idx, None);
            assert!(*expanded);
        }
        _ => panic!("expected a folder"),
    }
    match &tree.nodes[4] {
        TreeNode::File { component_idx, depth, parent_idx } => {
            assert_eq!(*component_idx, 2);
            assert_eq!(*depth, 2);
            assert_eq!(*parent_idx, Some(3));
        }
        _ => panic!("expected a file"),
    }
}

#[test]
fn collapse_then_expand_restores_visible_order() {
    let components = vec![
        make_component("a/x.md"),
        make_component("a/b/y.md"),
        make_component("a/b/z.md"),
        make_component("top.md"),
    ];
    let mut tree = build(&components);
    let before = tree.visible_indices.clone();
    tree.next(); // onto x.md
    tree.next(); // onto folder b
    assert!(tree.is_on_folder());
    let b = tree.current_node_idx().unwrap();
    tree.collapse();
    assert!(!tree.visible_indices.iter().any(|&i| matches!(tree.nodes[i], TreeNode::File { component_idx, .. } if component_idx == 1 || component_idx == 2)));
    assert!(tree.visible_indices.contains(&b));
    tree.expand();
    assert_eq!(tree.visible_indices, before);
}

#[test]
fn collapse_parent_moves_cursor_and_is_idempotent() {
    let components = vec![make_component("dir/one.md"), make_component("dir/two.md")];
    let mut tree = build(&components);
    tree.next();
    tree.next(); // on two.md
    assert_eq!(tree.current_component_idx(), Some(1));
    tree.collapse_parent();
    assert_eq!(tree.visible_indices, vec![0]);
    assert_eq!(tree.cursor, 0);
    let nodes_before = format!("{:?}", tree.nodes);
    let cursor_before = tree.cursor;
    // The cursor is now on the collapsed root folder, which has no parent.
    tree.collapse_parent();
    assert_eq!(format!("{:?}", tree.nodes), nodes_before);
    assert_eq!(tree.cursor, cursor_before);
}

#[test]
fn cursor_wraps_both_ways() {
    let components = vec![make_component("a.md"), make_component("b.md"), make_component("c.md")];
    let mut tree = build(&components);
    tree.prev();
    assert_eq!(tree.cursor, 2);
    tree.next();
    assert_eq!(tree.cursor, 0);
}

#[test]
fn folder_leaves_and_selection_queries() {
    let mut components = vec![
        make_component("f/a.md"),
        make_component("f/g/b.md"),
        make_component("other.md"),
    ];
    for c in components.iter_mut() {
        c.selected = false;
    }
    let tree = build(&components);
    assert_eq!(tree.get_folder_component_indices(0), vec![0, 1]);
    assert!(!tree.is_folder_any_selected(0, &components));
    components[1].selected = true;
    assert!(tree.is_folder_any_selected(0, &components));
    assert!(!tree.is_folder_all_selected(0, &components));
    components[0].selected = true;
    assert!(tree.is_folder_all_selected(0, &components));
}

#[test]
fn empty_tree_has_no_cursor_node() {
    let components: Vec<Component> = vec![];
    let mut tree = build(&components);
    assert!(tree.nodes.is_empty());
    assert_eq!(tree.current_node_idx(), None);
    tree.next();
    tree.toggle_expand();
    assert_eq!(tree.cursor, 0);
}

#[test]
fn split_path_on_both_separators() {
    assert_eq!(split_path("a/b\\c.md"), vec!["a", "b", "c.md"]);
    assert_eq!(split_path("plain.md"), vec!["plain.md"]);
    assert_eq!(split_path("a//b"), vec!["a", "", "b"]);
}

#[test]
fn build_exact_layout_of_nested_names() {
    let components = vec![
        make_component("file1.md"),
        make_component("folder/file2.md"),
        make_component("folder/sub/file3.md"),
    ];
    let tree = build(&components);
    assert_eq!(tree.nodes.len(), 5);
    assert_eq!(tree.visible_indices, vec![0, 1, 2, 3, 4]);
    let mut collapsed = tree.clone();
    collapsed.next();
    collapsed.collapse();
    assert_eq!(collapsed.visible_indices, vec![0, 1]);
}

#[test]
fn collapse_parent_from_deep_leaf_lands_on_parent() {
    let components = vec![make_component("a/b/c.md"), make_component("a/d.md")];
    let mut tree = build(&components);
    tree.next();
    tree.next(); // on c.md, under b
    assert_eq!(tree.current_component_idx(), Some(0));
    tree.collapse_parent();
    assert_eq!(tree.current_node_idx(), Some(1));
    assert_eq!(tree.visible_indices, vec![0, 1, 3]);
}
