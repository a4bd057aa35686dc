//! What every node is made of: its identity, and the protocols under which it takes
//! connections.

use vstd::prelude::*;
use vstd::slice::slice_to_vec;

use crate::keys;
use crate::keys::KeyError;
use crate::keys::KeyOrigin;
use crate::keys::NodeKey;

verus! {

/// How many seconds a node waits to come online before it goes on without.
pub const ONLINE_TIMEOUT_SECS: u64 = 10;

/// The names that a sequence of protocol names holds.
pub open spec fn names(alpns: Seq<Vec<u8>>) -> Seq<Seq<u8>> {
    alpns.map_values(|alpn: Vec<u8>| alpn@)
}

/// A node that is about to be started.
pub struct NodeBuilder {
    secret_key: NodeKey,
    extra_protocols: Vec<Vec<u8>>,
}

impl NodeBuilder {
    /// The secret key of the node.
    pub closed spec fn key(&self) -> Seq<u8> {
        self.secret_key.bytes@
    }

    /// The protocols that the node takes besides those that every node takes.
    pub closed spec fn extras(&self) -> Seq<Seq<u8>> {
        names(self.extra_protocols@)
    }

    /// A node with the given secret key, and no further protocols.
    pub fn new(secret_key: NodeKey) -> (builder: NodeBuilder)
        ensures
            builder.key() == secret_key.bytes@,
            builder.extras() == Seq::<Seq<u8>>::empty(),
    {
        let builder = NodeBuilder { secret_key, extra_protocols: Vec::new() };
        assert(builder.extras() =~= Seq::<Seq<u8>>::empty());
        builder
    }

    /// A node whose key file has the contents `stored`, or, where there is no such file, a node
    /// with a new random key. The second part of the result says what the key file is to hold
    /// from now on, where it does not hold it yet.
    pub fn from_data_dir(stored: Option<&[u8]>) -> (res: Result<
        (NodeBuilder, Option<Vec<u8>>),
        KeyError,
    >)
        ensures
            match (stored, res) {
                (Some(bytes), Ok((builder, to_store))) => {
                    &&& keys::stored_key(bytes@) == Some(builder.key())
                    &&& to_store is None
                    &&& builder.extras() == Seq::<Seq<u8>>::empty()
                },
                (Some(bytes), Err(e)) => e == KeyError::WrongSize && keys::stored_key(
                    bytes@,
                ) is None,
                (None, Ok((builder, to_store))) => {
                    &&& to_store matches Some(contents) && contents@ == keys::key_file(
                        builder.key(),
                    )
                    &&& builder.extras() == Seq::<Seq<u8>>::empty()
                },
                (None, Err(_)) => false,
            },
    {
        match keys::load_or_generate_secret_key(stored) {
            Ok(KeyOrigin::Loaded(key)) => Ok((NodeBuilder::new(key), None)),
            Ok(KeyOrigin::Generated(key)) => {
                let contents: Vec<u8> = keys::save_secret_key(&key);
                Ok((NodeBuilder::new(key), Some(contents)))
            },
            Err(e) => Err(e),
        }
    }

    /// The same node, which also takes the protocol `alpn`.
    pub fn accept(self, alpn: &[u8]) -> (builder: NodeBuilder)
        ensures
            builder.key() == self.key(),
            builder.extras() == self.extras().push(alpn@),
    {
        let mut extra_protocols: Vec<Vec<u8>> = self.extra_protocols;
        let ghost before = extra_protocols@;
        extra_protocols.push(slice_to_vec(alpn));
        assert(names(extra_protocols@) =~= names(before).push(alpn@));
        NodeBuilder { secret_key: self.secret_key, extra_protocols }
    }

    /// The secret key of the node.
    pub fn secret_key(&self) -> (key: &NodeKey)
        ensures
            key.bytes@ == self.key(),
    {
        &self.secret_key
    }

    /// The protocols of the node: those that every node takes, and then the others, in the order
    /// in which they were added.
    pub fn alpns(&self, common: Vec<Vec<u8>>) -> (alpns: Vec<Vec<u8>>)
        ensures
            names(alpns@) == names(common@) + self.extras(),
    {
        let mut alpns: Vec<Vec<u8>> = common;
        let ghost first = names(common@);
        let mut i: usize = 0;
        assert(names(alpns@) =~= first + self.extras().take(0));
        while i < self.extra_protocols.len()
            invariant
                i <= self.extra_protocols@.len(),
                names(alpns@) == first + self.extras().take(i as int),
            decreases self.extra_protocols@.len() - i,
        {
            let ghost before = alpns@;
            alpns.push(slice_to_vec(self.extra_protocols[i].as_slice()));
            assert(self.extras()[i as int] == self.extra_protocols@[i as int]@);
            assert(names(alpns@) =~= names(before).push(self.extras()[i as int]));
            assert(names(alpns@) =~= first + self.extras().take(i + 1));
            i = i + 1;
        }
        assert(self.extras().take(self.extras().len() as int) =~= self.extras());
        alpns
    }
}

/// The names of a sequence of protocols are those of all of them, in order.
pub proof fn names_are_those_of_all_protocols(alpns: Seq<Vec<u8>>)
    ensures
        names(alpns).len() == alpns.len(),
        forall|i: int| 0 <= i < alpns.len() ==> #[trigger] names(alpns)[i] == alpns[i]@,
{
}

/// How long a node waits to come online.
pub proof fn nodes_wait_ten_seconds_to_come_online()
    ensures
        ONLINE_TIMEOUT_SECS == 10,
{
}

} // verus!
