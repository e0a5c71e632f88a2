//! One node of the on-disk tree.
//!
//! A node lies in its slot as its key, the offset of its parent, a tag, and
//! then either one value (tag 0, a leaf) or the array of its children (tag 1,
//! an internal node). Nodes point at each other by file offset only.

use vstd::prelude::*;
use rustc_serialize::Decodable;
use crate::codec::{decode_as, decode_failure};
use crate::error::{DecodeFailure, Error};
use crate::format::NUM_CHILDREN;
use crate::types::{KeyType, ValueType};

verus! {

/// What a node holds besides its key: a value, or its children.
#[derive(Debug, PartialEq, Eq)]
pub enum Payload<K: KeyType, V: ValueType> {
    /// The value of a leaf.
    Value(V),
    /// The children of an internal node: for each, a key and the offset of
    /// the child's slot in the data file.
    Children([(K, u64); NUM_CHILDREN]),
}

/// A node of the tree as it lies in its slot.
#[derive(Debug, PartialEq, Eq)]
pub struct Node<K: KeyType, V: ValueType> {
    /// The key of a leaf, or the separator of an internal node.
    pub key: K,
    /// The offset of the parent's slot in the data file.
    pub parent: u64,
    /// The value or the children.
    pub payload: Payload<K, V>,
}

/// The node made of a decoded key, parent offset and tagged payload.
pub open spec fn node_of<K: KeyType, V: ValueType>(
    parts: (K, u64, Result<V, [(K, u64); NUM_CHILDREN]>),
) -> Node<K, V> {
    Node {
        key: parts.0,
        parent: parts.1,
        payload: match parts.2 {
            Ok(value) => Payload::Value(value),
            Err(children) => Payload::Children(children),
        },
    }
}

/// What reading a slot yields, given what the codec made of its bytes.
pub open spec fn node_read<K: KeyType, V: ValueType>(
    decoded: Result<(K, u64, Result<V, [(K, u64); NUM_CHILDREN]>), DecodeFailure>,
) -> Result<Node<K, V>, Error> {
    match decoded {
        Ok(parts) => Ok(node_of(parts)),
        Err(failure) => Err(Error::Decode(failure)),
    }
}

impl<K: KeyType, V: ValueType> Node<K, V> {
    /// Builds the node from what the codec decoded of its slot, or passes the
    /// codec's failure on.
    pub fn from_decoded(
        decoded: Result<(K, u64, Result<V, [(K, u64); NUM_CHILDREN]>), DecodeFailure>,
    ) -> (node: Result<Node<K, V>, Error>)
        ensures
            node == node_read(decoded),
    {
        match decoded {
            Ok((key, parent, tagged)) => {
                let payload = match tagged {
                    Ok(value) => Payload::Value(value),
                    Err(children) => Payload::Children(children),
                };
                Ok(Node { key, parent, payload })
            },
            Err(failure) => Err(Error::Decode(failure)),
        }
    }

    /// Tells whether the node is a leaf.
    pub fn is_leaf(&self) -> (leaf: bool)
        ensures
            leaf == (self.payload is Value),
    {
        match self.payload {
            Payload::Value(_) => true,
            Payload::Children(_) => false,
        }
    }
}

impl<K: KeyType + Decodable, V: ValueType + Decodable> Node<K, V> {
    /// Decodes the node that lies in `slot`. The codec reads a key, a parent
    /// offset, the tag, and then a value or exactly `NUM_CHILDREN` children;
    /// bytes of the slot that follow the node are padding and are not read.
    pub fn decode(slot: &[u8]) -> (node: Result<Node<K, V>, Error>)
        ensures
            node matches Err(error) ==> error is Decode,
    {
        let decoded = match decode_as::<(K, u64, Result<V, [(K, u64); NUM_CHILDREN]>)>(slot) {
            Ok(parts) => Ok(parts),
            Err(error) => Err(decode_failure(&error)),
        };
        Node::from_decoded(decoded)
    }
}

} // verus!
