use walker_progress::graph::NODE_TYPE_COUNT;
use walker_progress::order::dedup_sorted;
use walker_progress::sort_by_string;
use walker_progress::Node;
use walker_progress::NodeType;

fn all_types() -> Vec<NodeType> {
    let mut all = Vec::new();
    for i in 0..NODE_TYPE_COUNT {
        all.push(NodeType::from_index(i).unwrap());
    }
    all
}

#[test]
fn index_and_from_index_agree() {
    for i in 0..NODE_TYPE_COUNT {
        assert_eq!(NodeType::from_index(i).unwrap().index(), i);
    }
    assert_eq!(NodeType::from_index(NODE_TYPE_COUNT), None);
    assert_eq!(NodeType::from_index(u64::MAX), None);
    assert_eq!(NodeType::Bookmark.index(), 0);
    assert_eq!(NodeType::AliasContentMapping.index(), 12);
}

#[test]
fn names_are_the_names_of_the_variants() {
    for t in all_types() {
        assert_eq!(t.name(), format!("{:?}", t));
    }
}

#[test]
fn node_tells_its_type() {
    let n = Node::new(NodeType::HgManifest, 99);
    assert_eq!(n.get_type(), NodeType::HgManifest);
    assert_eq!(n.id, 99);
}

#[test]
fn sort_by_string_orders_by_name() {
    let sorted = sort_by_string(vec![
        NodeType::HgChangeset,
        NodeType::FileContent,
        NodeType::Bookmark,
        NodeType::Changeset,
    ]);
    assert_eq!(
        sorted,
        vec![
            NodeType::Bookmark,
            NodeType::Changeset,
            NodeType::FileContent,
            NodeType::HgChangeset,
        ]
    );
}

#[test]
fn sort_by_string_of_all_types() {
    let sorted = sort_by_string(all_types());
    let names: Vec<&str> = sorted.iter().map(|t| t.name()).collect();
    assert_eq!(
        names,
        vec![
            "AliasContentMapping",
            "BonsaiHgMapping",
            "Bookmark",
            "Changeset",
            "FileContent",
            "FileContentMetadata",
            "HgBonsaiMapping",
            "HgChangeset",
            "HgFileEnvelope",
            "HgFileNode",
            "HgManifest",
            "PhaseMapping",
            "PublishedBookmarks",
        ]
    );
}

#[test]
fn sort_by_string_does_not_depend_on_the_order_given() {
    let forward = all_types();
    let mut backward = all_types();
    backward.reverse();
    let mut rotated = all_types();
    rotated.rotate_left(5);
    let expected = sort_by_string(forward);
    assert_eq!(sort_by_string(backward), expected);
    assert_eq!(sort_by_string(rotated), expected);
}

#[test]
fn sort_by_string_agrees_with_the_standard_sort() {
    let mut expected = all_types();
    expected.sort_by_key(|t| t.name().to_string());
    assert_eq!(sort_by_string(all_types()), expected);
}

#[test]
fn sort_by_string_keeps_repetitions() {
    let sorted =
        sort_by_string(vec![NodeType::HgManifest, NodeType::Bookmark, NodeType::HgManifest]);
    assert_eq!(sorted, vec![NodeType::Bookmark, NodeType::HgManifest, NodeType::HgManifest]);
}

#[test]
fn sort_by_string_of_nothing() {
    assert_eq!(sort_by_string(Vec::new()), Vec::<NodeType>::new());
}

#[test]
fn dedup_sorted_drops_repetitions() {
    let types = vec![
        NodeType::Bookmark,
        NodeType::Bookmark,
        NodeType::Changeset,
        NodeType::HgManifest,
        NodeType::HgManifest,
        NodeType::HgManifest,
    ];
    assert_eq!(
        dedup_sorted(types),
        vec![NodeType::Bookmark, NodeType::Changeset, NodeType::HgManifest]
    );
    assert_eq!(dedup_sorted(Vec::new()), Vec::<NodeType>::new());
}
