use apin::path_tree::{build_tree, PathNode};

fn leaf_indices(node: &PathNode) -> Vec<(String, usize)> {
    let mut out = vec![];
    collect(node, &mut String::new(), &mut out);
    out
}

fn collect(node: &PathNode, path: &mut String, out: &mut Vec<(String, usize)>) {
    if let Some(idx) = node.path_index {
        out.push((path.clone(), idx));
    }
    for child in &node.children {
        let prev = path.len();
        if !path.is_empty() {
            path.push('/');
        }
        path.push_str(&child.label);
        collect(child, path, out);
        path.truncate(prev);
    }
}

#[test]
fn self_endpoint_and_child_both_reachable() {
    let paths = vec![
        "/v1/dnsServers".to_string(),
        "/v1/dnsServers/{dnsServerId}".to_string(),
    ];
    let root = build_tree(&paths);
    let leaves = leaf_indices(&root);
    assert!(leaves.iter().any(|(_, i)| *i == 0), "index 0 missing: {:?}", leaves);
    assert!(leaves.iter().any(|(_, i)| *i == 1), "index 1 missing: {:?}", leaves);
}

#[test]
fn insertion_order_independent() {
    let paths = vec![
        "/v1/dnsServers/{dnsServerId}".to_string(),
        "/v1/dnsServers".to_string(),
    ];
    let root = build_tree(&paths);
    let leaves = leaf_indices(&root);
    assert!(leaves.iter().any(|(_, i)| *i == 0), "index 0 missing: {:?}", leaves);
    assert!(leaves.iter().any(|(_, i)| *i == 1), "index 1 missing: {:?}", leaves);
}

#[test]
fn empty_paths_produces_empty_root() {
    let root = build_tree(&[]);
    assert!(root.children.is_empty());
    assert!(root.path_index.is_none());
}

#[test]
fn single_path_single_segment() {
    let paths = vec!["/health".to_string()];
    let root = build_tree(&paths);
    assert_eq!(root.children.len(), 1);
    let child = &root.children[0];
    assert_eq!(child.label, "health");
    assert_eq!(child.path_index, Some(0));
    assert!(child.is_leaf());
}

#[test]
fn sort_children_dot_first_then_lexicographic() {
    let paths = vec![
        "/api".to_string(),
        "/api/zebra".to_string(),
        "/api/alpha".to_string(),
    ];
    let root = build_tree(&paths);
    let api = root.children.iter().find(|c| c.label == "api").unwrap();
    let labels: Vec<&str> = api.children.iter().map(|c| c.label.as_str()).collect();
    assert_eq!(labels, vec![".", "alpha", "zebra"]);
}

#[test]
fn all_leaves_present_in_multi_path_tree() {
    let paths: Vec<String> = vec!["/a/b".to_string(), "/a/c".to_string(), "/d".to_string()];
    let root = build_tree(&paths);
    let leaves = leaf_indices(&root);
    for expected_idx in 0..3 {
        assert!(
            leaves.iter().any(|(_, i)| *i == expected_idx),
            "index {} missing: {:?}",
            expected_idx,
            leaves
        );
    }
    assert_eq!(leaves.len(), 3);
}

#[test]
fn path_index_count_equals_input_count() {
    let paths: Vec<String> = (0..5).map(|i| format!("/segment/{}", i)).collect();
    let root = build_tree(&paths);
    let leaves = leaf_indices(&root);
    let mut indices: Vec<usize> = leaves.iter().map(|(_, i)| *i).collect();
    indices.sort();
    assert_eq!(indices, vec![0, 1, 2, 3, 4]);
}

#[test]
fn new_interior_has_no_index_and_no_children() {
    let n = PathNode::new_interior("v1".to_string());
    assert_eq!(n.label, "v1");
    assert!(n.path_index.is_none());
    assert!(n.children.is_empty());
    assert!(n.is_leaf());
}

#[test]
fn shared_prefix_shares_interior_node() {
    let paths = vec!["/a/b".to_string(), "/a/c".to_string()];
    let root = build_tree(&paths);
    assert_eq!(root.children.len(), 1);
    let a = &root.children[0];
    assert_eq!(a.label, "a");
    assert!(a.path_index.is_none());
    let labels: Vec<&str> = a.children.iter().map(|c| c.label.as_str()).collect();
    assert_eq!(labels, vec!["b", "c"]);
    assert_eq!(a.children[0].path_index, Some(0));
    assert_eq!(a.children[1].path_index, Some(1));
}

#[test]
fn leaf_with_children_gets_self_child() {
    let paths = vec!["/users/{id}".to_string(), "/users".to_string()];
    let root = build_tree(&paths);
    let users = &root.children[0];
    assert_eq!(users.label, "users");
    assert!(users.path_index.is_none());
    assert_eq!(users.children[0].label, ".");
    assert_eq!(users.children[0].path_index, Some(1));
    assert_eq!(users.children[1].label, "{id}");
    assert_eq!(users.children[1].path_index, Some(0));
}

#[test]
fn repeated_paths_keep_an_index_of_their_own() {
    let paths: Vec<String> = vec!["/a".to_string(), "/a/".to_string(), "/b".to_string()];
    let root = build_tree(&paths);
    assert_eq!(root.children.len(), 2);
    assert_eq!(root.children[0].label, "a");
    let a = root.children[0].path_index.unwrap();
    assert!(a < paths.len() && (a == 0 || a == 1));
    assert_eq!(root.children[1].path_index, Some(2));
}
