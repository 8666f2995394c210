//! The wire-level shape of an upstream store response: a recursive
//! directory/leaf tree and the action that produced it.

use vstd::prelude::*;

verus! {

/// One node of the upstream tree. A directory node (`dir == true`) carries
/// children; a leaf carries a value, or no value when it reports a deletion.
#[derive(Debug)]
pub struct EtcdNode {
    pub key: String,
    pub value: Option<String>,
    pub dir: bool,
    pub nodes: Vec<EtcdNode>,
    pub modified_index: u64,
    pub created_index: u64,
}

/// A full upstream response body: the action (ignored by the core except
/// for logging) and the reported tree.
#[derive(Debug)]
pub struct EtcdResponse {
    pub action: String,
    pub node: EtcdNode,
}

impl EtcdNode {
    /// A leaf node carrying a value.
    pub fn leaf(key: String, value: String, created_index: u64, modified_index: u64) -> (r:
        EtcdNode)
        ensures
            r.key == key,
            r.value == Some(value),
            !r.dir,
            r.nodes@ =~= Seq::<EtcdNode>::empty(),
            r.created_index == created_index,
            r.modified_index == modified_index,
    {
        EtcdNode { key, value: Some(value), dir: false, nodes: Vec::new(), modified_index, created_index }
    }

    /// A leaf node reporting a deletion: no value.
    pub fn tombstone(key: String, created_index: u64, modified_index: u64) -> (r: EtcdNode)
        ensures
            r.key == key,
            r.value is None,
            !r.dir,
            r.nodes@ =~= Seq::<EtcdNode>::empty(),
            r.created_index == created_index,
            r.modified_index == modified_index,
    {
        EtcdNode { key, value: None, dir: false, nodes: Vec::new(), modified_index, created_index }
    }

    /// A directory node over the given children.
    pub fn directory(key: String, nodes: Vec<EtcdNode>) -> (r: EtcdNode)
        ensures
            r.key == key,
            r.value is None,
            r.dir,
            r.nodes == nodes,
            r.created_index == 0,
            r.modified_index == 0,
    {
        EtcdNode { key, value: None, dir: true, nodes, modified_index: 0, created_index: 0 }
    }
}

} // verus!
