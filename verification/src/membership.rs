//! Membership: which nodes a Satellite lets in.
//!
//! A Satellite takes build connections only from nodes that it knows to be members of the
//! Constellation: those that have written an entry to the document or joined the document's
//! swarm, and have not left the swarm since.

use vstd::prelude::*;
use vstd::utf8;

use crate::encoding;
use crate::keys;
use crate::satellite;
use crate::satellite::NodeId;

verus! {

/// Something that happened to the Constellation's document.
pub enum DocEvent {
    /// Another node wrote the entry with this key.
    InsertRemote { key: Vec<u8> },
    /// A node became a neighbour in the document's swarm.
    NeighborUp(NodeId),
    /// A neighbour left the document's swarm.
    NeighborDown(NodeId),
    /// Anything else.
    Other,
}

/// The node that an event shows to be a member of the Constellation.
pub open spec fn shows_member(event: DocEvent, id: Seq<u8>) -> bool {
    match event {
        DocEvent::InsertRemote { key } => key_names_member(key@, id),
        DocEvent::NeighborUp(node) => node@ == id,
        _ => false,
    }
}

/// The node that an event shows to have left the Constellation.
pub open spec fn shows_departure(event: DocEvent, id: Seq<u8>) -> bool {
    event matches DocEvent::NeighborDown(node) && node@ == id
}

/// Whether `key` is the key of the entry about the node `id`.
pub open spec fn key_names_member(key: Seq<u8>, id: Seq<u8>) -> bool {
    satellite::key_suffix(key) matches Some(suffix) && satellite::names_node(suffix, id)
}

/// The nodes that a Satellite lets in.
pub struct AllowedPeers {
    peers: Vec<NodeId>,
}

/// The keys of a sequence of nodes.
spec fn ids_of(nodes: Seq<NodeId>) -> Seq<Seq<u8>> {
    nodes.map_values(|node: NodeId| node@)
}

impl View for AllowedPeers {
    type V = Set<Seq<u8>>;

    closed spec fn view(&self) -> Set<Seq<u8>> {
        ids_of(self.peers@).to_set()
    }
}

/// The nodes that are let in after an event, if `peers` are let in before it: a node that the
/// event shows to be a member is added, and one that it shows to have left is taken out.
pub open spec fn peers_step(peers: Set<Seq<u8>>, event: DocEvent) -> Set<Seq<u8>> {
    Set::new(
        |id: Seq<u8>|
            shows_member(event, id) || (peers.contains(id) && !shows_departure(event, id)),
    )
}

/// The nodes that are let in after some events, if `peers` are let in before them.
pub open spec fn peers_after(peers: Set<Seq<u8>>, events: Seq<DocEvent>) -> Set<Seq<u8>>
    decreases events.len(),
{
    if events.len() == 0 {
        peers
    } else {
        peers_step(peers_after(peers, events.drop_last()), events.last())
    }
}

/// The nodes that are let in if the document holds entries with the given keys.
pub open spec fn peers_of_keys(keys: Seq<Vec<u8>>) -> Set<Seq<u8>> {
    Set::new(|id: Seq<u8>| exists|i: int| 0 <= i < keys.len() && key_names_member(#[trigger] keys[i]@, id))
}

impl AllowedPeers {
    #[verifier::type_invariant]
    spec fn no_node_twice(&self) -> bool {
        ids_of(self.peers@).no_duplicates()
    }

    /// Lets nobody in.
    pub fn new() -> (peers: AllowedPeers)
        ensures
            peers@ == Set::<Seq<u8>>::empty(),
    {
        let peers = AllowedPeers { peers: Vec::new() };
        assert(peers@ =~= Set::<Seq<u8>>::empty());
        peers
    }

    /// Whether `node` is let in.
    pub fn contains(&self, node: &NodeId) -> (res: bool)
        ensures
            res == self@.contains(node@),
    {
        let mut i: usize = 0;
        while i < self.peers.len()
            invariant
                i <= self.peers@.len(),
                forall|j: int| 0 <= j < i ==> (#[trigger] self.peers@[j])@ != node@,
            decreases self.peers@.len() - i,
        {
            if same_node(&self.peers[i], node) {
                assert(ids_of(self.peers@)[i as int] == node@);
                return true;
            }
            i = i + 1;
        }
        proof {
            let ids = ids_of(self.peers@);
            if ids.contains(node@) {
                let j = choose|j: int| 0 <= j < ids.len() && ids[j] == node@;
                assert(self.peers@[j]@ == node@);
            }
        }
        false
    }

    /// Lets `node` in from now on.
    pub fn insert(&mut self, node: NodeId)
        ensures
            final(self)@ == old(self)@.insert(node@),
    {
        proof {
            use_type_invariant(&*self);
        }
        if !self.contains(&node) {
            let mut peers: Vec<NodeId> = Vec::new();
            std::mem::swap(&mut peers, &mut self.peers);
            let ghost ids = ids_of(peers@);
            peers.push(node);
            proof {
                assert(ids_of(peers@) =~= ids.push(node@));
                lemma_push_new(ids, node@);
            }
            self.peers = peers;
        } else {
            assert(self@ =~= old(self)@.insert(node@));
        }
    }
}

impl AllowedPeers {
    /// Does not let `node` in any more.
    pub fn remove(&mut self, node: &NodeId)
        ensures
            final(self)@ == old(self)@.remove(node@),
    {
        proof {
            use_type_invariant(&*self);
        }
        let mut peers: Vec<NodeId> = Vec::new();
        std::mem::swap(&mut peers, &mut self.peers);
        let ghost ids = ids_of(peers@);
        let mut kept: Vec<NodeId> = Vec::new();
        let mut i: usize = 0;
        while i < peers.len()
            invariant
                i <= peers@.len(),
                ids == ids_of(peers@),
                ids.no_duplicates(),
                ids_of(kept@).no_duplicates(),
                forall|id: Seq<u8>| #[trigger]
                    ids_of(kept@).to_set().contains(id) <==> id != node@
                        && exists|k: int| 0 <= k < i && ids[k] == id,
            decreases peers@.len() - i,
        {
            let peer: NodeId = peers[i];
            let ghost before = ids_of(kept@);
            assert(ids[i as int] == peer@);
            if !same_node(&peer, node) {
                kept.push(peer);
                proof {
                    assert(ids_of(kept@) =~= before.push(peer@));
                    lemma_push_new(before, peer@);
                }
            }
            assert forall|id: Seq<u8>| #[trigger]
                ids_of(kept@).to_set().contains(id) <==> id != node@
                    && exists|k: int| 0 <= k < i + 1 && ids[k] == id by {
                if before.to_set().contains(id) {
                    let k = choose|k: int| 0 <= k < i && ids[k] == id;
                    assert(0 <= k < i + 1 && ids[k] == id);
                }
            }
            i = i + 1;
        }
        proof {
            let left = ids_of(kept@);
            assert forall|id: Seq<u8>|
                left.to_set().contains(id) == ids.to_set().remove(node@).contains(id) by {
                if ids.contains(id) {
                    let k = choose|k: int| 0 <= k < ids.len() && ids[k] == id;
                    assert(0 <= k < i && ids[k] == id);
                }
            }
            assert(left.to_set() =~= ids.to_set().remove(node@));
        }
        self.peers = kept;
    }

    /// Lets the node in that `key` names, if it is the key of an entry about one.
    pub fn learn_key(&mut self, key: &[u8])
        ensures
            forall|id: Seq<u8>| #[trigger]
                final(self)@.contains(id) <==> old(self)@.contains(id) || key_names_member(
                    key@,
                    id,
                ),
    {
        match satellite::strip_key_prefix(key) {
            Some(suffix) => match satellite::parse_node_id_from_hex(suffix) {
                Some(node) => {
                    assert forall|id: Seq<u8>| key_names_member(key@, id) implies id == node@ by {
                        encoding::hex_is_injective(id, node@);
                    }
                    self.insert(node);
                },
                None => {
                    assert forall|id: Seq<u8>| !#[trigger] key_names_member(key@, id) by {
                        assert(!satellite::names_node(suffix@, id));
                    }
                },
            },
            None => {},
        }
    }

    /// The nodes that the keys of the document's entries name.
    pub fn from_keys(keys: &Vec<Vec<u8>>) -> (peers: AllowedPeers)
        ensures
            peers@ == peers_of_keys(keys@),
    {
        let mut peers: AllowedPeers = AllowedPeers::new();
        let mut i: usize = 0;
        while i < keys.len()
            invariant
                i <= keys@.len(),
                peers@ == peers_of_keys(keys@.take(i as int)),
            decreases keys@.len() - i,
        {
            let ghost before = peers@;
            peers.learn_key(keys[i].as_slice());
            assert forall|id: Seq<u8>| #[trigger]
                peers@.contains(id) <==> peers_of_keys(keys@.take(i + 1)).contains(id) by {
                let shorter = keys@.take(i as int);
                let longer = keys@.take(i + 1);
                assert(longer[i as int]@ == keys@[i as int]@);
                if before.contains(id) {
                    let k = choose|k: int|
                        0 <= k < shorter.len() && key_names_member(#[trigger] shorter[k]@, id);
                    assert(longer[k] == shorter[k]);
                }
                if peers_of_keys(longer).contains(id) {
                    let k = choose|k: int|
                        0 <= k < longer.len() && key_names_member(#[trigger] longer[k]@, id);
                    if k < i {
                        assert(longer[k] == shorter[k]);
                    }
                }
            }
            assert(peers@ =~= peers_of_keys(keys@.take(i + 1)));
            i = i + 1;
        }
        assert(keys@.take(keys@.len() as int) =~= keys@);
        peers
    }

    /// Takes note of an event: a node that it shows to be a member is let in from now on, and a
    /// node that it shows to have left is not.
    pub fn observe(&mut self, event: &DocEvent)
        ensures
            final(self)@ == peers_step(old(self)@, *event),
    {
        match event {
            DocEvent::InsertRemote { key } => {
                self.learn_key(key.as_slice());
            },
            DocEvent::NeighborUp(node) => {
                self.insert(*node);
            },
            DocEvent::NeighborDown(node) => {
                self.remove(node);
            },
            DocEvent::Other => {},
        }
        assert(self@ =~= peers_step(old(self)@, *event));
    }
}

/// Whether a Satellite accepts a build connection from `node`. While its set of peers is being
/// changed (`peers` is `None`), it accepts none.
pub fn admits(peers: Option<&AllowedPeers>, node: &NodeId) -> (admitted: bool)
    ensures
        admitted == (peers matches Some(known) && known@.contains(node@)),
{
    match peers {
        Some(known) => known.contains(node),
        None => false,
    }
}

/// Whether one of the events from the number `from` on shows that a node has left.
pub open spec fn has_left_since(events: Seq<DocEvent>, from: int, id: Seq<u8>) -> bool {
    exists|j: int| from <= j < events.len() && shows_departure(#[trigger] events[j], id)
}

/// Whether one of the events shows a node to be a member, and none after it that it has left.
pub open spec fn has_joined_for_good(events: Seq<DocEvent>, id: Seq<u8>) -> bool {
    exists|i: int|
        0 <= i < events.len() && shows_member(#[trigger] events[i], id) && !has_left_since(
            events,
            i + 1,
            id,
        )
}

/// A node is let in exactly if the last thing known of it shows it to be a member: some event
/// did and none after it showed that it has left, or it was let in at first and no event has
/// shown that it has left.
pub proof fn last_word_decides(peers: Set<Seq<u8>>, events: Seq<DocEvent>, id: Seq<u8>)
    ensures
        peers_after(peers, events).contains(id) <==> has_joined_for_good(events, id) || (
        peers.contains(id) && !has_left_since(events, 0, id)),
    decreases events.len(),
{
    if events.len() > 0 {
        let before = events.drop_last();
        let n = events.len() - 1;
        last_word_decides(peers, before, id);
        assert forall|from: int| 0 <= from <= n implies (#[trigger] has_left_since(
            events,
            from,
            id,
        ) <==> has_left_since(before, from, id) || shows_departure(events[n], id)) by {
            if has_left_since(before, from, id) {
                let j = choose|j: int|
                    from <= j < before.len() && shows_departure(#[trigger] before[j], id);
                assert(shows_departure(events[j], id));
            }
            if has_left_since(events, from, id) && !shows_departure(events[n], id) {
                let j = choose|j: int|
                    from <= j < events.len() && shows_departure(#[trigger] events[j], id);
                assert(shows_departure(before[j], id));
            }
        }
        if shows_member(events[n], id) {
            assert(!has_left_since(events, n + 1, id));
            assert(has_joined_for_good(events, id));
        } else {
            if has_joined_for_good(before, id) && !shows_departure(events[n], id) {
                let i = choose|i: int|
                    0 <= i < before.len() && shows_member(#[trigger] before[i], id)
                        && !has_left_since(before, i + 1, id);
                assert(shows_member(events[i], id) && !has_left_since(events, i + 1, id));
            }
            if has_joined_for_good(events, id) {
                let i = choose|i: int|
                    0 <= i < events.len() && shows_member(#[trigger] events[i], id)
                        && !has_left_since(events, i + 1, id);
                assert(i < n);
                assert(has_left_since(events, i + 1, id) <==> has_left_since(before, i + 1, id)
                    || shows_departure(events[n], id));
                assert(shows_member(before[i], id) && !has_left_since(before, i + 1, id));
            }
        }
        assert(has_left_since(events, 0, id) <==> has_left_since(before, 0, id)
            || shows_departure(events[n], id));
    }
}

/// A node that has written its entry under its key is let in, whether the entry was there before
/// or comes as an event.
pub proof fn registered_nodes_are_let_in(key: Vec<u8>, id: Seq<u8>)
    requires
        id.len() == keys::KEY_LENGTH,
        satellite::is_public_key(id),
        key@ == utf8::encode_utf8(satellite::entry_key(id)),
    ensures
        forall|keys: Seq<Vec<u8>>| keys.contains(key) ==> #[trigger] peers_of_keys(keys).contains(id),
        forall|peers: Set<Seq<u8>>| #[trigger]
            peers_step(peers, DocEvent::InsertRemote { key }).contains(id),
{
    satellite::entry_key_names_its_node(id);
    assert(key_names_member(key@, id));
    assert forall|keys: Seq<Vec<u8>>| keys.contains(key) implies #[trigger] peers_of_keys(
        keys,
    ).contains(id) by {
        let i = choose|i: int| 0 <= i < keys.len() && keys[i] == key;
        assert(key_names_member(keys[i]@, id));
    }
}

/// A sequence without duplicates that is extended by a new element.
proof fn lemma_push_new(ids: Seq<Seq<u8>>, id: Seq<u8>)
    requires
        ids.no_duplicates(),
        !ids.to_set().contains(id),
    ensures
        ids.push(id).no_duplicates(),
        ids.push(id).to_set() == ids.to_set().insert(id),
{
    assert forall|i: int, j: int|
        0 <= i < ids.len() + 1 && 0 <= j < ids.len() + 1 && i != j implies ids.push(id)[i]
        != ids.push(id)[j] by {
        if i < ids.len() {
            assert(ids.to_set().contains(ids[i]));
        }
        if j < ids.len() {
            assert(ids.to_set().contains(ids[j]));
        }
    }
    assert forall|x: Seq<u8>|
        ids.push(id).to_set().contains(x) == ids.to_set().insert(id).contains(x) by {
        if ids.contains(x) {
            let k = choose|k: int| 0 <= k < ids.len() && ids[k] == x;
            assert(ids.push(id)[k] == x);
        }
        assert(ids.push(id)[ids.len() as int] == id);
        if ids.push(id).contains(x) {
            let k = choose|k: int| 0 <= k < ids.push(id).len() && ids.push(id)[k] == x;
            if k < ids.len() {
                assert(ids[k] == x);
            }
        }
    }
    assert(ids.push(id).to_set() =~= ids.to_set().insert(id));
}

/// Whether two nodes are the same.
fn same_node(a: &NodeId, b: &NodeId) -> (same: bool)
    ensures
        same == (a@ == b@),
{
    let left: &[u8; 32] = a.as_bytes();
    let right: &[u8; 32] = b.as_bytes();
    let mut i: usize = 0;
    while i < 32
        invariant
            i <= 32,
            left@ == a@,
            right@ == b@,
            forall|j: int| 0 <= j < i ==> left@[j] == right@[j],
        decreases 32 - i,
    {
        if left[i] != right[i] {
            return false;
        }
        i = i + 1;
    }
    assert(left@ =~= right@);
    true
}

/// What an event changes: a neighbour that comes up is let in, one that goes down is not any
/// more, and the entry of another node lets in the node that its key names and nobody else. All
/// else stays as it is.
pub proof fn events_change_who_is_let_in(
    peers: Set<Seq<u8>>,
    node: NodeId,
    key: Vec<u8>,
    id: Seq<u8>,
)
    ensures
        peers_step(peers, DocEvent::NeighborUp(node)) == peers.insert(node@),
        peers_step(peers, DocEvent::NeighborDown(node)) == peers.remove(node@),
        peers_step(peers, DocEvent::Other) == peers,
        peers_step(peers, DocEvent::InsertRemote { key }).contains(id) <==> peers.contains(id) || (
        id.len() == 32 && satellite::is_public_key(id) && key@ == utf8::encode_utf8("satellite/"@)
            + encoding::hex(id)),
{
    assert(peers_step(peers, DocEvent::NeighborUp(node)) =~= peers.insert(node@));
    assert(peers_step(peers, DocEvent::NeighborDown(node)) =~= peers.remove(node@));
    assert(peers_step(peers, DocEvent::Other) =~= peers);
    satellite::keys_about_satellites(key@, encoding::hex(id), id);
    if key_names_member(key@, id) {
        satellite::keys_about_satellites(key@, satellite::key_suffix(key@)->0, id);
    }
}

/// The nodes that the keys of the document name are let in, and nobody else.
pub proof fn keys_decide_who_is_let_in(keys: Seq<Vec<u8>>, id: Seq<u8>)
    ensures
        peers_of_keys(keys).contains(id) <==> id.len() == 32 && satellite::is_public_key(id)
            && exists|i: int|
            0 <= i < keys.len() && #[trigger] keys[i]@ == utf8::encode_utf8("satellite/"@)
                + encoding::hex(id),
{
    assert forall|i: int| 0 <= i < keys.len() implies (key_names_member(#[trigger] keys[i]@, id)
        <==> id.len() == 32 && satellite::is_public_key(id) && keys[i]@ == utf8::encode_utf8(
        "satellite/"@,
    ) + encoding::hex(id)) by {
        satellite::keys_about_satellites(keys[i]@, encoding::hex(id), id);
        if key_names_member(keys[i]@, id) {
            satellite::keys_about_satellites(keys[i]@, satellite::key_suffix(keys[i]@)->0, id);
        }
    }
}

} // verus!
