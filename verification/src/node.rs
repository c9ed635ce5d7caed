//! Node identities and maps that are keyed by them.
use crate::wire::be_value;
use vstd::prelude::*;

verus! {

/// The order of the field that the coordinates of public keys are in.
pub open spec fn field_prime() -> nat {
    0xffffffff_ffffffff_ffffffff_ffffffff_ffffffff_ffffffff_fffffffe_fffffc2fnat
}

/// Whether `(x, y)` is a point of the curve that public keys are on.
pub open spec fn on_curve(x: nat, y: nat) -> bool {
    (y * y) % field_prime() == (x * x * x + 7) % field_prime()
}

/// The identity of a node: a public key in its compressed form.
#[derive(Clone, Copy, Debug, PartialEq, Eq, Hash)]
pub struct NodeId {
    /// The compressed form of the key.
    pub bytes: [u8; 33],
}

impl View for NodeId {
    type V = Seq<u8>;

    open spec fn view(&self) -> Seq<u8> {
        self.bytes@
    }
}

/// Whether the bytes are the compressed form of a public key: the parity of one
/// coordinate of a point of the curve, and the other coordinate. A coordinate that
/// has a point at all has one of each parity.
pub open spec fn is_public_key(bytes: Seq<u8>) -> bool {
    &&& bytes.len() == 33
    &&& bytes[0] == 2 || bytes[0] == 3
    &&& be_value(bytes.skip(1)) < field_prime()
    &&& exists|y: nat| #[trigger] on_curve(be_value(bytes.skip(1)), y)
}

/// `bitcoin::secp256k1::PublicKey::from_slice` on a compressed key, and
/// `serialize` on what it gives. It is claimed that the bytes are taken for a
/// key exactly if they are the compressed form of a point of the curve, and that a
/// key that was read from its compressed form serializes to that form: the first
/// byte gives the parity of one coordinate and the others are the other
/// coordinate, reduced.
#[verifier::external_body]
fn parse_public_key(bytes: &[u8; 33]) -> (r: Option<NodeId>)
    ensures
        r is Some <==> is_public_key(bytes@),
        r matches Some(node) ==> node@ == bytes@,
{
    match bitcoin::secp256k1::PublicKey::from_slice(bytes) {
        Ok(key) => Some(NodeId { bytes: key.serialize() }),
        Err(_) => None,
    }
}

impl NodeId {
    /// Whether the bytes are those of a public key.
    pub open spec fn wf(&self) -> bool {
        is_public_key(self@)
    }

    /// The node with the given compressed public key, if the bytes are one.
    pub fn from_bytes(bytes: &[u8; 33]) -> (r: Option<NodeId>)
        ensures
            r is Some <==> is_public_key(bytes@),
            r matches Some(node) ==> node@ == bytes@ && node.wf(),
    {
        parse_public_key(bytes)
    }

    /// Whether both are the same node.
    pub fn same(&self, other: &NodeId) -> (r: bool)
        ensures
            r == (self@ == other@),
    {
        let mut i: usize = 0;
        while i < 33
            invariant
                i <= 33,
                forall|j: int| 0 <= j < i ==> self@[j] == other@[j],
            decreases 33 - i,
        {
            if self.bytes[i] != other.bytes[i] {
                return false;
            }
            i += 1;
        }
        assert(self@ =~= other@);
        true
    }
}

/// A map from nodes to values, in which every node occurs at most once.
pub struct NodeMap<V> {
    entries: Vec<(NodeId, V)>,
}

/// The position of the entry of `key`, or the number of entries.
spec fn position<V>(entries: Seq<(NodeId, V)>, key: Seq<u8>) -> int
    decreases entries.len(),
{
    if entries.len() == 0 {
        0
    } else if entries[0].0@ == key {
        0
    } else {
        1 + position(entries.skip(1), key)
    }
}

proof fn lemma_position<V>(entries: Seq<(NodeId, V)>, key: Seq<u8>)
    ensures
        0 <= position(entries, key) <= entries.len(),
        position(entries, key) < entries.len() ==> entries[position(entries, key)].0@ == key,
        forall|i: int| 0 <= i < position(entries, key) ==> (#[trigger] entries[i]).0@ != key,
    decreases entries.len(),
{
    if entries.len() > 0 && entries[0].0@ != key {
        let rest = entries.skip(1);
        lemma_position(rest, key);
        assert forall|i: int| 0 <= i < position(entries, key) implies (#[trigger] entries[i]).0@
            != key by {
            if i > 0 {
                assert(rest[i - 1] == entries[i]);
            }
        }
    }
}

spec fn entries_map<V>(entries: Seq<(NodeId, V)>) -> Map<Seq<u8>, V> {
    Map::new(
        |key: Seq<u8>| position(entries, key) < entries.len(),
        |key: Seq<u8>| entries[position(entries, key)].1,
    )
}

spec fn distinct<V>(entries: Seq<(NodeId, V)>) -> bool {
    forall|i: int, j: int|
        0 <= i < j < entries.len() ==> (#[trigger] entries[i]).0@ != (#[trigger] entries[j]).0@
}

proof fn lemma_entry<V>(entries: Seq<(NodeId, V)>, i: int)
    requires
        distinct(entries),
        0 <= i < entries.len(),
    ensures
        position(entries, entries[i].0@) == i,
{
    lemma_position(entries, entries[i].0@);
}

impl<V> View for NodeMap<V> {
    type V = Map<Seq<u8>, V>;

    closed spec fn view(&self) -> Map<Seq<u8>, V> {
        entries_map(self.entries@)
    }
}

impl<V> NodeMap<V> {
    /// No node occurs twice.
    pub closed spec fn wf(&self) -> bool {
        distinct(self.entries@)
    }

    /// The empty map.
    pub fn new() -> (r: NodeMap<V>)
        ensures
            r.wf(),
            r@ == Map::<Seq<u8>, V>::empty(),
    {
        let r = NodeMap { entries: Vec::new() };
        assert(r@ =~= Map::<Seq<u8>, V>::empty());
        r
    }

    fn find(&self, key: &NodeId) -> (r: usize)
        ensures
            r == position(self.entries@, key@),
            r <= self.entries@.len(),
    {
        proof {
            lemma_position(self.entries@, key@);
        }
        let mut i: usize = 0;
        while i < self.entries.len()
            invariant
                i <= self.entries@.len(),
                i <= position(self.entries@, key@) <= self.entries@.len(),
                position(self.entries@, key@) < self.entries@.len() ==> self.entries@[position(
                    self.entries@,
                    key@,
                )].0@ == key@,
                forall|j: int|
                    0 <= j < position(self.entries@, key@) ==> (#[trigger] self.entries@[j]).0@
                        != key@,
            decreases self.entries@.len() - i,
        {
            if self.entries[i].0.same(key) {
                return i;
            }
            i += 1;
        }
        i
    }

    /// Whether the node has a value.
    pub fn contains_key(&self, key: &NodeId) -> (r: bool)
        ensures
            r == self@.dom().contains(key@),
    {
        self.find(key) < self.entries.len()
    }

    /// Takes the value of the node out of the map.
    pub fn remove(&mut self, key: &NodeId) -> (r: Option<V>)
        requires
            old(self).wf(),
        ensures
            final(self).wf(),
            final(self)@ == old(self)@.remove(key@),
            r == (if old(self)@.dom().contains(key@) {
                Some(old(self)@[key@])
            } else {
                None
            }),
    {
        let ghost before = self.entries@;
        let at: usize = self.find(key);
        proof {
            lemma_position(before, key@);
        }
        if at < self.entries.len() {
            let (_, value) = self.entries.remove(at);
            proof {
                let after = self.entries@;
                assert forall|i: int| 0 <= i < after.len() implies after[i] == before[if i < at {
                    i
                } else {
                    i + 1
                }] by {}
                assert(distinct(after));
                assert forall|k: Seq<u8>|
                    #![auto]
                    entries_map(after).dom().contains(k) == entries_map(before).remove(
                        key@,
                    ).dom().contains(k) by {
                    lemma_position(after, k);
                    lemma_position(before, k);
                    let p = position(after, k);
                    if p < after.len() {
                        lemma_entry(
                            before,
                            if p < at {
                                p
                            } else {
                                p + 1
                            },
                        );
                    }
                    let q = position(before, k);
                    if q < before.len() && k != key@ {
                        assert(after[if q < at {
                            q
                        } else {
                            q - 1
                        }].0@ == k);
                    }
                }
                assert forall|k: Seq<u8>| #[trigger] entries_map(after).dom().contains(k) implies entries_map(
                    after,
                )[k] == entries_map(before)[k] by {
                    lemma_position(after, k);
                    let p = position(after, k);
                    lemma_entry(
                        before,
                        if p < at {
                            p
                        } else {
                            p + 1
                        },
                    );
                }
                assert(entries_map(after) =~= entries_map(before).remove(key@));
            }
            Some(value)
        } else {
            assert(entries_map(before) =~= entries_map(before).remove(key@));
            None
        }
    }

    /// Gives the node the value, in place of the one it may have had.
    pub fn insert(&mut self, key: &NodeId, value: V)
        requires
            old(self).wf(),
        ensures
            final(self).wf(),
            final(self)@ == old(self)@.insert(key@, value),
    {
        let ghost start = self@;
        let _ = self.remove(key);
        let ghost before = self.entries@;
        assert(!self@.dom().contains(key@));
        self.entries.push((*key, value));
        proof {
            let after = self.entries@;
            lemma_position(before, key@);
            assert(distinct(after));
            assert forall|k: Seq<u8>|
                #![auto]
                entries_map(after).dom().contains(k) == entries_map(before).insert(
                    key@,
                    value,
                ).dom().contains(k) by {
                lemma_position(after, k);
                lemma_position(before, k);
                if k == key@ {
                    lemma_entry(after, before.len() as int);
                }
                if position(before, k) < before.len() {
                    lemma_entry(after, position(before, k));
                }
            }
            assert forall|k: Seq<u8>| #[trigger] entries_map(after).dom().contains(k) implies entries_map(
                after,
            )[k] == entries_map(before).insert(key@, value)[k] by {
                lemma_position(after, k);
                lemma_position(before, k);
                if k == key@ {
                    lemma_entry(after, before.len() as int);
                } else {
                    lemma_entry(after, position(before, k));
                }
            }
            assert(entries_map(after) =~= entries_map(before).insert(key@, value));
            assert(entries_map(after) =~= start.insert(key@, value));
        }
    }
}

} // verus!
