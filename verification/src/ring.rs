//! The consistent-hash ring of `hashring`, as the routing layer sees it.
//!
//! Nothing in this file is proved. The ring is an opaque value that keeps its
//! nodes in the order of their hashes; what the three functions below say of
//! it is taken from the source of `hashring`. Where a node comes to stand
//! among the others, and which node a key falls to, is decided by the ring's
//! hasher: both are named here and not written out.

use vstd::prelude::*;
use hashring::{DefaultHashBuilder, HashRing};

verus! {

#[verifier::external_type_specification]
#[verifier::external_body]
pub struct ExDefaultHashBuilder(DefaultHashBuilder);

#[verifier::external_type_specification]
#[verifier::external_body]
#[verifier::reject_recursive_types(T)]
#[verifier::reject_recursive_types(S)]
pub struct ExHashRing<T, S>(HashRing<T, S>);

/// The nodes of a ring, in the order in which the ring holds them.
pub uninterp spec fn ring_nodes(ring: HashRing<usize>) -> Seq<usize>;

/// The nodes that a ring holds once `HashRing::add` has put `node` among the
/// nodes `nodes`, under the ring's default hasher.
pub uninterp spec fn ring_placed(nodes: Seq<usize>, node: usize) -> Seq<usize>;

/// The node that `HashRing::get` finds for a key of the bytes `key` on a ring
/// that holds `nodes` in this order, under the ring's default hasher.
pub uninterp spec fn ring_owner(nodes: Seq<usize>, key: Seq<u8>) -> Option<usize>;

/// Calls `HashRing::new`. Trusted: the new ring has no nodes.
#[verifier::external_body]
pub(crate) fn ring_new() -> (ring: HashRing<usize>)
    ensures
        ring_nodes(ring) == Seq::<usize>::empty(),
{
    HashRing::new()
}

/// Calls `HashRing::add`. Trusted: the ring then holds the nodes that
/// [`ring_placed`] names, which are those it held and the new one, each as
/// often as before.
#[verifier::external_body]
pub(crate) fn ring_add(ring: &mut HashRing<usize>, node: usize)
    ensures
        ring_nodes(*final(ring)) == ring_placed(ring_nodes(*old(ring)), node),
        ring_nodes(*final(ring)).to_multiset() == ring_nodes(*old(ring)).to_multiset().insert(node),
{
    ring.add(node)
}

/// Calls `HashRing::get` with a two-byte key. Trusted: the result is the
/// node that [`ring_owner`] names; it is one of the ring's nodes, and there
/// is one unless the ring is empty.
#[verifier::external_body]
pub(crate) fn ring_get(ring: &HashRing<usize>, key: &[u8; 2]) -> (owner: Option<usize>)
    ensures
        owner == ring_owner(ring_nodes(*ring), key@),
        owner is None <==> ring_nodes(*ring).len() == 0,
        owner matches Some(node) ==> ring_nodes(*ring).contains(node),
{
    match ring.get(key) {
        Some(node) => Some(*node),
        None => None,
    }
}

} // verus!
