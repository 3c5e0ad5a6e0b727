use wgpu_pbr::editor::hierarchy::{
    entity_index, entity_label, hierarchy_roots, world_hierarchy, world_hierarchy_walk_ends,
    HierarchyEntry, HierarchyNode,
};

fn entry(id: u64, name: Option<&str>, parent: Option<u64>, children: Vec<u64>) -> HierarchyEntry {
    HierarchyEntry { id, name: name.map(|n| n.to_string()), parent, children }
}

#[test]
fn labels_show_name_and_index() {
    assert_eq!(entity_label(&Some("Camera".to_string()), 7), "Camera #7");
    assert_eq!(entity_label(&None, 42), "#42");
    assert_eq!(entity_index((3u64 << 32) | 12), 12);
    assert_eq!(entity_label(&None, (1u64 << 32) | 1005), "#1005");
    assert_eq!(entity_label(&Some(String::new()), 0), " #0");
}

#[test]
fn roots_are_entities_without_parent() {
    let entries = vec![
        entry(1, Some("A"), None, vec![2]),
        entry(2, Some("B"), Some(1), vec![]),
        entry(3, None, None, vec![]),
    ];
    assert_eq!(hierarchy_roots(&entries), vec![1, 3]);
    assert!(hierarchy_roots(&vec![]).is_empty());
}

#[test]
fn hierarchy_nests_children_in_folders() {
    let entries = vec![
        entry(1, Some("Root"), None, vec![2, 4]),
        entry(2, Some("Arm"), Some(1), vec![3]),
        entry(3, None, Some(2), vec![]),
        entry(4, Some("Leg"), Some(1), vec![9]),
        entry(5, Some("Lamp"), None, vec![]),
    ];
    let nodes = world_hierarchy(&entries);
    assert_eq!(
        nodes,
        vec![
            HierarchyNode::Dir(1, "Root #1".to_string()),
            HierarchyNode::Dir(2, "Arm #2".to_string()),
            HierarchyNode::Leaf(3, "#3".to_string()),
            HierarchyNode::CloseDir,
            HierarchyNode::Dir(4, "Leg #4".to_string()),
            HierarchyNode::CloseDir,
            HierarchyNode::CloseDir,
            HierarchyNode::Leaf(5, "Lamp #5".to_string()),
        ]
    );
    let mut open = 0i32;
    for n in &nodes {
        match n {
            HierarchyNode::Dir(..) => open += 1,
            HierarchyNode::CloseDir => open -= 1,
            HierarchyNode::Leaf(..) => {}
        }
        assert!(open >= 0);
    }
    assert_eq!(open, 0);
    assert!(world_hierarchy(&vec![]).is_empty());
}

#[test]
fn hierarchy_walk_that_would_loop_is_recognised() {
    let looping = vec![
        entry(1, Some("A"), None, vec![2]),
        entry(2, Some("B"), Some(1), vec![1]),
    ];
    assert!(!world_hierarchy_walk_ends(&looping));
    let tree = vec![
        entry(1, Some("A"), None, vec![2]),
        entry(2, Some("B"), Some(1), vec![3]),
        entry(3, Some("C"), Some(2), vec![]),
    ];
    assert!(world_hierarchy_walk_ends(&tree));
    assert!(world_hierarchy_walk_ends(&vec![]));
    // A child that no entry describes ends the walk there.
    assert!(world_hierarchy_walk_ends(&vec![entry(1, None, None, vec![7])]));
}
