use i3_tree::node::{Node, NodeType, Window};
use i3_tree::tree::{snapshot_is_well_formed, Tree, WorkspaceExtractor, INTERNAL_OUTPUT};

fn container(id: usize, node_type: NodeType, nodes: Vec<Node>) -> Node {
    Node {
        id,
        name: None,
        num: None,
        node_type,
        output: None,
        window: None,
        nodes,
    }
}

fn window(id: usize) -> Node {
    Node {
        id,
        name: Some(format!("window {}", id)),
        num: None,
        node_type: NodeType::Con,
        output: None,
        window: Some(id + 1000),
        nodes: vec![],
    }
}

fn workspace(id: usize, num: i32, name: &str, output: &str, nodes: Vec<Node>) -> Node {
    Node {
        id,
        name: Some(name.to_string()),
        num: Some(num),
        node_type: NodeType::Workspace,
        output: Some(output.to_string()),
        window: None,
        nodes,
    }
}

fn root(nodes: Vec<Node>) -> Node {
    container(1, NodeType::Root, nodes)
}

fn numbers(tree: &Tree) -> Vec<i32> {
    tree.workspaces.iter().map(|w| w.num).collect()
}

fn window_ids(ws: &i3_tree::tree::Workspace) -> Vec<usize> {
    ws.windows.iter().map(|w| w.id).collect()
}

#[test]
fn no_workspace_nodes_gives_empty_model() {
    let r = root(vec![
        container(2, NodeType::Output, vec![container(3, NodeType::Con, vec![window(4)])]),
        container(5, NodeType::Dockarea, vec![]),
    ]);
    assert!(snapshot_is_well_formed(&r));
    let tree = Tree::new(&r);
    assert!(tree.workspaces.is_empty());
    assert!(tree.find_workspace(1).is_none());
    assert!(tree.find_workspace_for_window(4).is_none());
}

#[test]
fn empty_root_gives_empty_model() {
    let r = root(vec![]);
    assert!(Tree::new(&r).workspaces.is_empty());
}

#[test]
fn internal_output_workspaces_are_left_out() {
    let r = root(vec![
        container(2, NodeType::Output, vec![workspace(3, -1, "__i3_scratch", INTERNAL_OUTPUT, vec![window(4)])]),
        container(5, NodeType::Output, vec![workspace(6, 1, "1", "eDP-1", vec![window(7)])]),
    ]);
    let tree = Tree::new(&r);
    assert_eq!(tree.workspaces.len(), 1);
    assert_eq!(tree.workspaces[0].num, 1);
    assert_eq!(tree.workspaces[0].output.as_str(), "eDP-1");
    assert!(tree.find_workspace(-1).is_none());
    assert!(tree.find_workspace_for_window(4).is_none());
}

#[test]
fn output_that_only_starts_like_internal_is_kept() {
    let r = root(vec![workspace(2, 4, "4", "__i3x", vec![])]);
    let tree = Tree::new(&r);
    assert_eq!(numbers(&tree), vec![4]);
}

#[test]
fn find_workspace_by_number() {
    let r = root(vec![container(
        2,
        NodeType::Output,
        vec![
            workspace(3, 1, "one", "HDMI-1", vec![]),
            workspace(4, 2, "two", "HDMI-1", vec![]),
            workspace(5, 3, "three", "HDMI-1", vec![]),
        ],
    )]);
    let tree = Tree::new(&r);
    assert_eq!(numbers(&tree), vec![1, 2, 3]);
    let found = tree.find_workspace(2).unwrap();
    assert_eq!(found.num, 2);
    assert_eq!(found.name.as_str(), "two");
    assert_eq!(found.output.as_str(), "HDMI-1");
    assert!(tree.find_workspace(99).is_none());
}

#[test]
fn find_workspace_for_window_by_id() {
    let r = root(vec![container(
        2,
        NodeType::Output,
        vec![
            workspace(3, 1, "1", "DP-1", vec![window(10), window(11)]),
            workspace(4, 2, "2", "DP-1", vec![window(20)]),
        ],
    )]);
    let tree = Tree::new(&r);
    assert_eq!(tree.find_workspace_for_window(11).unwrap().num, 1);
    assert_eq!(tree.find_workspace_for_window(10).unwrap().num, 1);
    assert_eq!(tree.find_workspace_for_window(20).unwrap().num, 2);
    assert!(tree.find_workspace_for_window(99).is_none());
}

#[test]
fn duplicate_window_id_gives_first_workspace() {
    let r = root(vec![
        workspace(3, 5, "5", "DP-1", vec![window(30)]),
        workspace(4, 6, "6", "DP-1", vec![window(30)]),
    ]);
    let tree = Tree::new(&r);
    assert_eq!(tree.find_workspace_for_window(30).unwrap().num, 5);
}

#[test]
fn building_twice_gives_same_model() {
    let r = root(vec![
        container(2, NodeType::Output, vec![workspace(3, 1, "a", "DP-1", vec![window(10)])]),
        container(4, NodeType::Output, vec![workspace(5, 2, "b", "DP-2", vec![window(20), window(21)])]),
    ]);
    let first = Tree::new(&r);
    let second = Tree::new(&r);
    assert_eq!(first.workspaces.len(), second.workspaces.len());
    for (a, b) in first.workspaces.iter().zip(second.workspaces.iter()) {
        assert_eq!(a.num, b.num);
        assert_eq!(a.name, b.name);
        assert_eq!(a.output, b.output);
        assert_eq!(window_ids(a), window_ids(b));
    }
    assert_eq!(numbers(&first), vec![1, 2]);
}

#[test]
fn workspace_without_number_is_malformed() {
    let mut bad = workspace(3, 1, "1", "DP-1", vec![]);
    bad.num = None;
    let r = root(vec![container(2, NodeType::Output, vec![bad])]);
    assert!(!snapshot_is_well_formed(&r));
}

#[test]
fn workspace_without_name_or_output_is_malformed() {
    let mut no_name = workspace(3, 1, "1", "DP-1", vec![]);
    no_name.name = None;
    assert!(!snapshot_is_well_formed(&root(vec![no_name])));
    let mut no_output = workspace(3, 1, "1", "DP-1", vec![]);
    no_output.output = None;
    assert!(!snapshot_is_well_formed(&root(vec![no_output])));
}

#[test]
fn malformed_internal_workspace_is_still_malformed() {
    let mut bad = workspace(3, 1, "__i3_scratch", INTERNAL_OUTPUT, vec![]);
    bad.num = None;
    assert!(!snapshot_is_well_formed(&root(vec![bad])));
}

#[test]
fn fields_outside_workspaces_are_not_needed() {
    let r = root(vec![container(2, NodeType::Output, vec![workspace(3, 1, "1", "DP-1", vec![])])]);
    assert!(snapshot_is_well_formed(&r));
}

#[test]
fn duplicate_number_gives_first_in_breadth_first_order() {
    // The deep one comes first depth-first, the shallow one first breadth-first.
    let r = root(vec![
        container(
            2,
            NodeType::Output,
            vec![container(3, NodeType::Con, vec![workspace(4, 1, "deep", "DP-1", vec![])])],
        ),
        container(5, NodeType::Output, vec![workspace(6, 1, "shallow", "DP-2", vec![])]),
    ]);
    let tree = Tree::new(&r);
    assert_eq!(tree.workspaces.len(), 2);
    assert_eq!(tree.workspaces[0].name.as_str(), "shallow");
    assert_eq!(tree.find_workspace(1).unwrap().name.as_str(), "shallow");
}

#[test]
fn workspaces_come_in_breadth_first_order() {
    let r = root(vec![
        container(2, NodeType::Output, vec![container(3, NodeType::Con, vec![workspace(4, 3, "3", "A", vec![])])]),
        container(5, NodeType::Output, vec![workspace(6, 1, "1", "B", vec![]), workspace(7, 2, "2", "B", vec![])]),
    ]);
    assert_eq!(numbers(&Tree::new(&r)), vec![1, 2, 3]);
}

#[test]
fn workspace_inside_workspace_is_not_listed() {
    let inner = workspace(4, 9, "inner", "DP-1", vec![window(40)]);
    let r = root(vec![workspace(3, 1, "outer", "DP-1", vec![inner])]);
    let tree = Tree::new(&r);
    assert_eq!(numbers(&tree), vec![1]);
    assert!(tree.find_workspace(9).is_none());
    assert_eq!(window_ids(&tree.workspaces[0]), vec![40]);
}

#[test]
fn windows_come_in_preorder() {
    let mut split = container(10, NodeType::Con, vec![window(12), window(13)]);
    split.window = None;
    let ws = workspace(3, 1, "1", "DP-1", vec![window(20), split, window(30)]);
    let ids: Vec<usize> = ws.extract_windows().iter().map(|w: &Window| w.id).collect();
    assert_eq!(ids, vec![20, 12, 13, 30]);
}

#[test]
fn extract_workspace_reads_fields() {
    let ws = workspace(3, 7, "seven", "DP-3", vec![window(70)]);
    let w = ws.extract_workspace().unwrap();
    assert_eq!(w.num, 7);
    assert_eq!(w.name.as_str(), "seven");
    assert_eq!(w.output.as_str(), "DP-3");
    assert_eq!(window_ids(&w), vec![70]);
}

#[test]
fn extract_workspace_skips_internal_output() {
    let ws = workspace(3, -1, "__i3_scratch", "__i3", vec![]);
    assert!(ws.extract_workspace().is_none());
}
