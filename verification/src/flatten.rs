//! The tree flattener: turns a recursive directory/leaf tree into flat
//! per-key updates applied to the cache mapping, and the laws that hold of
//! that flattening.

use vstd::prelude::*;
use vstd::string::StringExecFns;
use crate::cache::{Cache, NodeData, Rec};
use crate::errors::MirrorError;
use crate::etcd::EtcdNode;
use crate::strutil::is_prefix;

verus! {

/// One flat update: insert/overwrite a record, or remove a key.
pub ghost enum Upd {
    Put(Rec),
    Del(Seq<char>),
}

/// The key an update touches.
pub open spec fn upd_key(u: Upd) -> Seq<char> {
    match u {
        Upd::Put(r) => r.key,
        Upd::Del(k) => k,
    }
}

/// The node's path with the configured prefix removed.
pub open spec fn strip(key: Seq<char>, prefix: Seq<char>) -> Seq<char> {
    key.skip(prefix.len() as int)
}

/// The record a value-carrying leaf stands for.
pub open spec fn leaf_rec(node: EtcdNode, prefix: Seq<char>) -> Rec {
    Rec {
        key: strip(node.key@, prefix),
        value: node.value->0@,
        created_index: node.created_index,
        modified_index: node.modified_index,
    }
}

/// Every leaf path under the node falls under the configured prefix.
pub open spec fn node_keys_ok(node: EtcdNode, prefix: Seq<char>) -> bool
    decreases node,
{
    if node.dir {
        forall|i: int|
            0 <= i < node.nodes@.len() ==> node_keys_ok(#[trigger] node.nodes@[i], prefix)
    } else {
        is_prefix(prefix, node.key@)
    }
}

/// The flat updates a node stands for, in the order the tree walk emits
/// them: a directory contributes its children's updates in child order; a
/// leaf contributes one insert or, with no value, one removal.
pub open spec fn leaf_updates(node: EtcdNode, prefix: Seq<char>) -> Seq<Upd>
    decreases node,
{
    if node.dir {
        child_updates(node.nodes@, prefix)
    } else if node.value is Some {
        seq![Upd::Put(leaf_rec(node, prefix))]
    } else {
        seq![Upd::Del(strip(node.key@, prefix))]
    }
}

pub open spec fn child_updates(cs: Seq<EtcdNode>, prefix: Seq<char>) -> Seq<Upd>
    decreases cs,
{
    if cs.len() == 0 {
        Seq::empty()
    } else {
        child_updates(cs.drop_last(), prefix) + leaf_updates(cs.last(), prefix)
    }
}

/// One update applied to a mapping.
pub open spec fn apply_upd(m: Map<Seq<char>, Rec>, u: Upd) -> Map<Seq<char>, Rec> {
    match u {
        Upd::Put(r) => m.insert(r.key, r),
        Upd::Del(k) => m.remove(k),
    }
}

/// A sequence of updates applied left to right.
pub open spec fn apply_upds(m: Map<Seq<char>, Rec>, us: Seq<Upd>) -> Map<Seq<char>, Rec>
    decreases us.len(),
{
    if us.len() == 0 {
        m
    } else {
        apply_upd(apply_upds(m, us.drop_last()), us.last())
    }
}

/// What flattening a whole node into a mapping yields.
pub open spec fn flatten_map(m: Map<Seq<char>, Rec>, node: EtcdNode, prefix: Seq<char>) -> Map<
    Seq<char>,
    Rec,
> {
    apply_upds(m, leaf_updates(node, prefix))
}

proof fn lemma_apply_upds_concat(m: Map<Seq<char>, Rec>, us1: Seq<Upd>, us2: Seq<Upd>)
    ensures
        apply_upds(m, us1 + us2) == apply_upds(apply_upds(m, us1), us2),
    decreases us2.len(),
{
    if us2.len() == 0 {
        assert(us1 + us2 =~= us1);
    } else {
        lemma_apply_upds_concat(m, us1, us2.drop_last());
        assert((us1 + us2).drop_last() =~= us1 + us2.drop_last());
        assert((us1 + us2).last() == us2.last());
    }
}

/// The last update in `us` that touches `k`, if any.
spec fn last_touch(us: Seq<Upd>, k: Seq<char>) -> Option<Upd>
    decreases us.len(),
{
    if us.len() == 0 {
        None
    } else if upd_key(us.last()) == k {
        Some(us.last())
    } else {
        last_touch(us.drop_last(), k)
    }
}

/// After applying `us`, a key's state is decided by the last update that
/// touches it, and otherwise left as it was.
proof fn lemma_apply_upds_last_touch(m: Map<Seq<char>, Rec>, us: Seq<Upd>, k: Seq<char>)
    ensures
        match last_touch(us, k) {
            Some(u) => match u {
                Upd::Put(r) => apply_upds(m, us).contains_key(k) && apply_upds(m, us)[k] == r
                    && r.key == k,
                Upd::Del(_) => !apply_upds(m, us).contains_key(k),
            },
            None => apply_upds(m, us).contains_key(k) == m.contains_key(k) && (m.contains_key(
                k,
            ) ==> apply_upds(m, us)[k] == m[k]),
        },
    decreases us.len(),
{
    if us.len() > 0 {
        lemma_apply_upds_last_touch(m, us.drop_last(), k);
    }
}

/// Applying the same updates twice yields the same mapping as applying
/// them once.
proof fn lemma_apply_upds_idempotent(m: Map<Seq<char>, Rec>, us: Seq<Upd>)
    ensures
        apply_upds(apply_upds(m, us), us) == apply_upds(m, us),
{
    let m1 = apply_upds(m, us);
    let m2 = apply_upds(m1, us);
    assert forall|k: Seq<char>| #[trigger]
        m2.contains_key(k) == m1.contains_key(k) && (m1.contains_key(k) ==> m2[k] == m1[k]) by {
        lemma_apply_upds_last_touch(m, us, k);
        lemma_apply_upds_last_touch(m1, us, k);
    }
    assert(m2 =~= m1);
}

/// Flattening idempotence: applying the same tree node twice to a mapping
/// yields the same mapping as applying it once.
pub proof fn lemma_flatten_idempotent(m: Map<Seq<char>, Rec>, node: EtcdNode, prefix: Seq<char>)
    ensures
        flatten_map(flatten_map(m, node, prefix), node, prefix) == flatten_map(m, node, prefix),
{
    lemma_apply_upds_idempotent(m, leaf_updates(node, prefix));
}

/// Deletion semantics: a leaf with no value removes its key; when the key
/// is absent the mapping is left unchanged.
pub proof fn lemma_tombstone(m: Map<Seq<char>, Rec>, node: EtcdNode, prefix: Seq<char>)
    requires
        !node.dir,
        node.value is None,
    ensures
        flatten_map(m, node, prefix) == m.remove(strip(node.key@, prefix)),
        !m.contains_key(strip(node.key@, prefix)) ==> flatten_map(m, node, prefix) == m,
{
    reveal_with_fuel(apply_upds, 3);
    let k = strip(node.key@, prefix);
    let us = leaf_updates(node, prefix);
    assert(us =~= seq![Upd::Del(k)]);
    assert(us.drop_last() =~= Seq::<Upd>::empty());
    assert(apply_upds(m, us) == m.remove(k));
    if !m.contains_key(k) {
        assert(m.remove(k) =~= m);
    }
}

/// Directory recursion: a directory of two value-carrying leaves with
/// distinct keys contributes exactly those two records, in either child
/// order.
pub proof fn lemma_directory_two_leaves(
    m: Map<Seq<char>, Rec>,
    node: EtcdNode,
    a: EtcdNode,
    b: EtcdNode,
    prefix: Seq<char>,
)
    requires
        node.dir,
        node.nodes@ == seq![a, b],
        !a.dir,
        a.value is Some,
        !b.dir,
        b.value is Some,
        leaf_rec(a, prefix).key != leaf_rec(b, prefix).key,
    ensures
        flatten_map(m, node, prefix) == m.insert(leaf_rec(a, prefix).key, leaf_rec(a, prefix))
            .insert(leaf_rec(b, prefix).key, leaf_rec(b, prefix)),
        flatten_map(m, node, prefix) == m.insert(leaf_rec(b, prefix).key, leaf_rec(b, prefix))
            .insert(leaf_rec(a, prefix).key, leaf_rec(a, prefix)),
        m == Map::<Seq<char>, Rec>::empty() ==> flatten_map(m, node, prefix).dom()
            =~= Set::<Seq<char>>::empty().insert(leaf_rec(a, prefix).key).insert(
            leaf_rec(b, prefix).key,
        ),
{
    reveal_with_fuel(child_updates, 3);
    reveal_with_fuel(apply_upds, 3);
    let ra = leaf_rec(a, prefix);
    let rb = leaf_rec(b, prefix);
    let ua = leaf_updates(a, prefix);
    let ub = leaf_updates(b, prefix);
    let cs = node.nodes@;
    assert(cs.drop_last() =~= seq![a]);
    assert(cs.last() == b);
    assert(seq![a].drop_last() =~= Seq::<EtcdNode>::empty());
    assert(seq![a].last() == a);
    assert(ua =~= seq![Upd::Put(ra)]);
    assert(ub =~= seq![Upd::Put(rb)]);
    assert(child_updates(seq![a], prefix) == child_updates(Seq::<EtcdNode>::empty(), prefix)
        + ua);
    assert(Seq::<Upd>::empty() + ua =~= ua);
    let us = leaf_updates(node, prefix);
    assert(us == ua + ub);
    assert((ua + ub).last() == Upd::Put(rb));
    assert((ua + ub).drop_last() =~= ua);
    assert(ua.drop_last() =~= Seq::<Upd>::empty());
    assert(ua.last() == Upd::Put(ra));
    assert(flatten_map(m, node, prefix) == m.insert(ra.key, ra).insert(rb.key, rb));
    assert(m.insert(ra.key, ra).insert(rb.key, rb) =~= m.insert(rb.key, rb).insert(
        ra.key,
        ra,
    ));
}

/// Checks that every leaf path under `node` falls under `prefix`.
pub fn check_node_keys(node: &EtcdNode, prefix: &str) -> (r: bool)
    ensures
        r == node_keys_ok(*node, prefix@),
    decreases *node,
{
    if node.dir {
        let mut i: usize = 0;
        while i < node.nodes.len()
            invariant
                0 <= i <= node.nodes@.len(),
                node.dir,
                forall|j: int| 0 <= j < i ==> node_keys_ok(#[trigger] node.nodes@[j], prefix@),
            decreases node.nodes@.len() - i,
        {
            if !check_node_keys(&node.nodes[i], prefix) {
                proof {
                    assert(!node_keys_ok(node.nodes@[i as int], prefix@));
                }
                return false;
            }
            i += 1;
        }
        true
    } else {
        crate::strutil::str_starts_with(node.key.as_str(), prefix)
    }
}

fn apply_node(cache: &mut Cache, node: &EtcdNode, prefix: &str)
    requires
        old(cache).wf(),
        node_keys_ok(*node, prefix@),
    ensures
        final(cache).wf(),
        final(cache)@ == apply_upds(old(cache)@, leaf_updates(*node, prefix@)),
        final(cache).revision() == old(cache).revision(),
    decreases *node,
{
    if node.dir {
        let ghost m0 = cache@;
        let ghost rev0 = cache.revision();
        let mut i: usize = 0;
        proof {
            assert(cache@ =~= apply_upds(m0, child_updates(node.nodes@.subrange(0, 0), prefix@)));
        }
        while i < node.nodes.len()
            invariant
                0 <= i <= node.nodes@.len(),
                cache.wf(),
                cache.revision() == rev0,
                node_keys_ok(*node, prefix@),
                node.dir,
                cache@ == apply_upds(m0, child_updates(node.nodes@.subrange(0, i as int), prefix@)),
            decreases node.nodes@.len() - i,
        {
            let ghost pre = node.nodes@.subrange(0, i as int);
            let ghost mid = cache@;
            apply_node(cache, &node.nodes[i], prefix);
            proof {
                let post = node.nodes@.subrange(0, i as int + 1);
                assert(post.drop_last() =~= pre);
                assert(post.last() == node.nodes@[i as int]);
                lemma_apply_upds_concat(
                    m0,
                    child_updates(pre, prefix@),
                    leaf_updates(node.nodes@[i as int], prefix@),
                );
                assert(child_updates(post, prefix@) == child_updates(pre, prefix@)
                    + leaf_updates(node.nodes@[i as int], prefix@));
            }
            i += 1;
        }
        proof {
            assert(node.nodes@.subrange(0, node.nodes@.len() as int) =~= node.nodes@);
            assert(leaf_updates(*node, prefix@) == child_updates(node.nodes@, prefix@));
        }
    } else {
        let plen = prefix.unicode_len();
        let klen = node.key.as_str().unicode_len();
        let stripped = node.key.as_str().substring_char(plen, klen);
        match &node.value {
            Some(v) => {
                let rec = NodeData::new(
                    String::from_str(stripped),
                    v.clone(),
                    node.created_index,
                    node.modified_index,
                );
                cache.insert_record(rec);
                proof {
                    reveal_with_fuel(apply_upds, 3);
                    let us = leaf_updates(*node, prefix@);
                    assert(us.drop_last() =~= Seq::<Upd>::empty());
                    assert(us.last() == Upd::Put(leaf_rec(*node, prefix@)));
                }
            },
            None => {
                cache.remove_record(stripped);
                proof {
                    reveal_with_fuel(apply_upds, 3);
                    let us = leaf_updates(*node, prefix@);
                    assert(us.drop_last() =~= Seq::<Upd>::empty());
                    assert(us.last() == Upd::Del(strip(node.key@, prefix@)));
                }
            },
        }
    }
}

/// Flattens a tree node into the cache mapping: recurses through
/// directories; a value-carrying leaf inserts or overwrites the record
/// filed under its prefix-stripped path; a leaf with no value removes that
/// key. Rejects, without touching the cache, a tree in which any leaf path
/// does not fall under the prefix.
pub fn store_node_recursive(cache: &mut Cache, node: &EtcdNode, prefix: &str) -> (r: Result<
    (),
    MirrorError,
>)
    requires
        old(cache).wf(),
    ensures
        final(cache).wf(),
        final(cache).revision() == old(cache).revision(),
        r is Ok <==> node_keys_ok(*node, prefix@),
        r is Ok ==> final(cache)@ == flatten_map(old(cache)@, *node, prefix@),
        r is Err ==> final(cache)@ == old(cache)@ && r->Err_0 == MirrorError::Consistency,
{
    if !check_node_keys(node, prefix) {
        return Err(MirrorError::Consistency);
    }
    apply_node(cache, node, prefix);
    Ok(())
}

} // verus!
