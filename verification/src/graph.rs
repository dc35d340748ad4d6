//! The kinds of node a walk can visit.

use vstd::prelude::*;

verus! {

/// How many kinds of node there are.
pub const NODE_TYPE_COUNT: u64 = 13;

/// The kind of a node of the repository graph.
#[derive(Clone, Copy, Debug, PartialEq, Eq, Structural, Hash)]
pub enum NodeType {
    Bookmark,
    Changeset,
    BonsaiHgMapping,
    PhaseMapping,
    PublishedBookmarks,
    HgBonsaiMapping,
    HgChangeset,
    HgManifest,
    HgFileEnvelope,
    HgFileNode,
    FileContent,
    FileContentMetadata,
    AliasContentMapping,
}

/// One node of the graph: its kind and an identifier that the walk gave it.
#[derive(Clone, Copy, Debug, PartialEq, Eq, Structural, Hash)]
pub struct Node {
    pub node_type: NodeType,
    pub id: u64,
}

impl NodeType {
    /// The position of this kind in the declaration order, from zero.
    pub open spec fn spec_index(self) -> u64 {
        match self {
            NodeType::Bookmark => 0,
            NodeType::Changeset => 1,
            NodeType::BonsaiHgMapping => 2,
            NodeType::PhaseMapping => 3,
            NodeType::PublishedBookmarks => 4,
            NodeType::HgBonsaiMapping => 5,
            NodeType::HgChangeset => 6,
            NodeType::HgManifest => 7,
            NodeType::HgFileEnvelope => 8,
            NodeType::HgFileNode => 9,
            NodeType::FileContent => 10,
            NodeType::FileContentMetadata => 11,
            NodeType::AliasContentMapping => 12,
        }
    }

    /// The kind at position `i` of the declaration order.
    pub open spec fn spec_from_index(i: u64) -> Option<NodeType> {
        if i == 0 {
            Some(NodeType::Bookmark)
        } else if i == 1 {
            Some(NodeType::Changeset)
        } else if i == 2 {
            Some(NodeType::BonsaiHgMapping)
        } else if i == 3 {
            Some(NodeType::PhaseMapping)
        } else if i == 4 {
            Some(NodeType::PublishedBookmarks)
        } else if i == 5 {
            Some(NodeType::HgBonsaiMapping)
        } else if i == 6 {
            Some(NodeType::HgChangeset)
        } else if i == 7 {
            Some(NodeType::HgManifest)
        } else if i == 8 {
            Some(NodeType::HgFileEnvelope)
        } else if i == 9 {
            Some(NodeType::HgFileNode)
        } else if i == 10 {
            Some(NodeType::FileContent)
        } else if i == 11 {
            Some(NodeType::FileContentMetadata)
        } else if i == 12 {
            Some(NodeType::AliasContentMapping)
        } else {
            None
        }
    }

    /// The kind at position `i`, for `i` below `NODE_TYPE_COUNT`.
    pub open spec fn at(i: int) -> NodeType {
        match NodeType::spec_from_index(i as u64) {
            Some(t) => t,
            None => NodeType::Bookmark,
        }
    }

    /// The name under which this kind is reported.
    pub open spec fn spec_name(self) -> Seq<char> {
        match self {
            NodeType::Bookmark => "Bookmark"@,
            NodeType::Changeset => "Changeset"@,
            NodeType::BonsaiHgMapping => "BonsaiHgMapping"@,
            NodeType::PhaseMapping => "PhaseMapping"@,
            NodeType::PublishedBookmarks => "PublishedBookmarks"@,
            NodeType::HgBonsaiMapping => "HgBonsaiMapping"@,
            NodeType::HgChangeset => "HgChangeset"@,
            NodeType::HgManifest => "HgManifest"@,
            NodeType::HgFileEnvelope => "HgFileEnvelope"@,
            NodeType::HgFileNode => "HgFileNode"@,
            NodeType::FileContent => "FileContent"@,
            NodeType::FileContentMetadata => "FileContentMetadata"@,
            NodeType::AliasContentMapping => "AliasContentMapping"@,
        }
    }

    /// The position of this kind in the declaration order, from zero.
    #[verifier::when_used_as_spec(spec_index)]
    pub fn index(self) -> (i: u64)
        ensures
            i == self.spec_index(),
            i < NODE_TYPE_COUNT,
            NodeType::spec_from_index(i) == Some(self),
    {
        match self {
            NodeType::Bookmark => 0,
            NodeType::Changeset => 1,
            NodeType::BonsaiHgMapping => 2,
            NodeType::PhaseMapping => 3,
            NodeType::PublishedBookmarks => 4,
            NodeType::HgBonsaiMapping => 5,
            NodeType::HgChangeset => 6,
            NodeType::HgManifest => 7,
            NodeType::HgFileEnvelope => 8,
            NodeType::HgFileNode => 9,
            NodeType::FileContent => 10,
            NodeType::FileContentMetadata => 11,
            NodeType::AliasContentMapping => 12,
        }
    }

    /// The kind at position `i`; none from `NODE_TYPE_COUNT` on.
    pub fn from_index(i: u64) -> (t: Option<NodeType>)
        ensures
            t == NodeType::spec_from_index(i),
            t is Some <==> i < NODE_TYPE_COUNT,
            t matches Some(k) ==> k.spec_index() == i,
    {
        match i {
            0 => Some(NodeType::Bookmark),
            1 => Some(NodeType::Changeset),
            2 => Some(NodeType::BonsaiHgMapping),
            3 => Some(NodeType::PhaseMapping),
            4 => Some(NodeType::PublishedBookmarks),
            5 => Some(NodeType::HgBonsaiMapping),
            6 => Some(NodeType::HgChangeset),
            7 => Some(NodeType::HgManifest),
            8 => Some(NodeType::HgFileEnvelope),
            9 => Some(NodeType::HgFileNode),
            10 => Some(NodeType::FileContent),
            11 => Some(NodeType::FileContentMetadata),
            12 => Some(NodeType::AliasContentMapping),
            _ => None,
        }
    }

    /// The name under which this kind is reported.
    pub fn name(self) -> (s: &'static str)
        ensures
            s@ == self.spec_name(),
    {
        match self {
            NodeType::Bookmark => "Bookmark",
            NodeType::Changeset => "Changeset",
            NodeType::BonsaiHgMapping => "BonsaiHgMapping",
            NodeType::PhaseMapping => "PhaseMapping",
            NodeType::PublishedBookmarks => "PublishedBookmarks",
            NodeType::HgBonsaiMapping => "HgBonsaiMapping",
            NodeType::HgChangeset => "HgChangeset",
            NodeType::HgManifest => "HgManifest",
            NodeType::HgFileEnvelope => "HgFileEnvelope",
            NodeType::HgFileNode => "HgFileNode",
            NodeType::FileContent => "FileContent",
            NodeType::FileContentMetadata => "FileContentMetadata",
            NodeType::AliasContentMapping => "AliasContentMapping",
        }
    }
}

impl Node {
    /// The node of kind `node_type` that the walk knows as `id`.
    pub fn new(node_type: NodeType, id: u64) -> (n: Node)
        ensures
            n.node_type == node_type,
            n.id == id,
    {
        Node { node_type, id }
    }

    /// The kind of this node.
    pub fn get_type(&self) -> (t: NodeType)
        ensures
            t == self.node_type,
    {
        self.node_type
    }
}

/// What stands for a node of the graph, as the keys of the walker's output do.
pub trait AsNode {
    /// The node that this stands for.
    spec fn node(&self) -> Node;

    /// The node that this stands for.
    fn as_node(&self) -> (n: &Node)
        ensures
            *n == self.node(),
    ;
}

impl AsNode for Node {
    open spec fn node(&self) -> Node {
        *self
    }

    fn as_node(&self) -> (n: &Node) {
        self
    }
}

/// The position of a kind is below the count, and finds the kind again.
pub proof fn lemma_index_round_trip(t: NodeType)
    ensures
        t.spec_index() < NODE_TYPE_COUNT,
        NodeType::spec_from_index(t.spec_index()) == Some(t),
        NodeType::at(t.spec_index() as int) == t,
{
}

/// Every position below the count holds a kind, whose position it is.
pub proof fn lemma_at_index(i: int)
    requires
        0 <= i < NODE_TYPE_COUNT,
    ensures
        NodeType::at(i).spec_index() == i,
{
}

/// Two kinds with the same name are the same kind.
pub proof fn lemma_names_distinct(a: NodeType, b: NodeType)
    requires
        a.spec_name() == b.spec_name(),
    ensures
        a == b,
{
    reveal_strlit("Bookmark");
    reveal_strlit("Changeset");
    reveal_strlit("BonsaiHgMapping");
    reveal_strlit("PhaseMapping");
    reveal_strlit("PublishedBookmarks");
    reveal_strlit("HgBonsaiMapping");
    reveal_strlit("HgChangeset");
    reveal_strlit("HgManifest");
    reveal_strlit("HgFileEnvelope");
    reveal_strlit("HgFileNode");
    reveal_strlit("FileContent");
    reveal_strlit("FileContentMetadata");
    reveal_strlit("AliasContentMapping");
    let x = a.spec_name();
    let y = b.spec_name();
    assert(x.len() == y.len());
    assert(x[0] == y[0]);
    assert(x[2] == y[2]);
    assert(x[3] == y[3]);
}

} // verus!
