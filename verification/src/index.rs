//! The index: the cached root, the configured sizes, and the overlay.
//!
//! An index is opened from the contents of its data file and of its log, and
//! every insert appends one record to the log before it reaches the overlay.
//! Merging the overlay into the tree is not implemented: `compact` is there to
//! be called and does nothing.

use vstd::prelude::*;
use rustc_serialize::{Decodable, Encodable};
use crate::codec::{encode_failure, encode_pair};
use crate::error::Error;
use crate::format::{
    file_header, header, layout, layout_of, node_size, record_size, root_slot, spec_node_size,
    spec_record_size, valid_sizes, Layout, HEADER_LEN,
};
use crate::node::Node;
use crate::overlay::{insert_all, insert_pair, Overlay};
use crate::types::{totally_ordered, KeyType, ValueType};
use crate::wal::{ends_at_boundary, frame, lemma_append_record, padded, records, replay};

verus! {

/// What an index is, for its contracts.
#[verifier::reject_recursive_types(K)]
#[verifier::reject_recursive_types(V)]
pub struct BTreeView<K: KeyType, V: ValueType> {
    /// The root node as it was read from the data file, if there was one.
    pub root: Option<Node<K, V>>,
    /// The largest encoded key, in bytes.
    pub max_key_size: usize,
    /// The largest encoded value, in bytes.
    pub max_value_size: usize,
    /// The pairs that were inserted and not yet merged into the tree.
    pub overlay: Map<K, Set<V>>,
}

/// An on-disk B+Tree with a write-ahead log and an in-memory overlay.
pub struct BTree<K: KeyType, V: ValueType> {
    root: Option<Node<K, V>>,
    sizes: Sizes,
    mem_tree: Overlay<K, V>,
}

/// The sizes that an index was opened with. They are valid for as long as
/// the index lives.
struct Sizes {
    max_key_size: usize,
    max_value_size: usize,
}

impl Sizes {
    #[verifier::type_invariant]
    spec fn valid(self) -> bool {
        valid_sizes(self.max_key_size as int, self.max_value_size as int)
    }
}

impl<K: KeyType, V: ValueType> View for BTree<K, V> {
    type V = BTreeView<K, V>;

    closed spec fn view(&self) -> BTreeView<K, V> {
        BTreeView {
            root: self.root,
            max_key_size: self.sizes.max_key_size,
            max_value_size: self.sizes.max_value_size,
            overlay: self.mem_tree@,
        }
    }
}

/// The data file after an index was opened on it: a fresh file has received
/// the header, any other file is as it was.
pub open spec fn opened(tree_file: Seq<u8>) -> Seq<u8> {
    if tree_file.len() == 0 {
        header()
    } else {
        tree_file
    }
}

/// Why opening fails with `error`: what the files must be like for it. A
/// decoding failure can only come from a complete log record or from a root
/// slot; the other errors tell exactly which file is at fault.
pub open spec fn open_error(
    tree_file: Seq<u8>,
    wal_file: Seq<u8>,
    max_key_size: int,
    max_value_size: int,
    error: Error,
) -> bool {
    let found = layout_of(tree_file, spec_node_size(max_key_size, max_value_size));
    let whole = ends_at_boundary(wal_file, spec_record_size(max_key_size, max_value_size));
    match error {
        Error::UnexpectedEof => !whole || found == Err::<Layout, Error>(Error::UnexpectedEof),
        Error::InvalidFile => whole && found == Err::<Layout, Error>(Error::InvalidFile),
        Error::Decode(_) => wal_file.len() >= spec_record_size(max_key_size, max_value_size) || (
        whole && found is Ok && found.unwrap() is Rooted),
        Error::Oversized => false,
        Error::Encode => false,
    }
}

/// Opening is idempotent on the data file: a file that an index was opened
/// on is left as it is by every later opening.
pub proof fn lemma_opened_twice(tree_file: Seq<u8>)
    ensures
        opened(opened(tree_file)) == opened(tree_file),
{
}

/// A data file that was created by opening an index holds the header and
/// nothing else, and it opens again without an error and without a root,
/// whatever the sizes.
pub proof fn lemma_reopen_fresh(max_key_size: int, max_value_size: int)
    requires
        valid_sizes(max_key_size, max_value_size),
    ensures
        opened(Seq::<u8>::empty()) == header(),
        opened(Seq::<u8>::empty()).len() == HEADER_LEN,
        layout_of(opened(Seq::<u8>::empty()), spec_node_size(max_key_size, max_value_size)) == Ok::<
            Layout,
            Error,
        >(Layout::Rootless),
        opened(opened(Seq::<u8>::empty())) == opened(Seq::<u8>::empty()),
{
    assert(header().subrange(0, HEADER_LEN as int) =~= header());
}

impl<K: KeyType, V: ValueType> BTreeView<K, V> {
    /// The width of the records that this index appends to its log.
    pub open spec fn record_size(self) -> int {
        spec_record_size(self.max_key_size as int, self.max_value_size as int)
    }
}

impl<K: KeyType, V: ValueType> BTree<K, V> {
    /// The width of the records that this index appends to its log. The
    /// sizes of an index are always valid.
    pub fn record_size(&self) -> (size: usize)
        ensures
            size == self@.record_size(),
            valid_sizes(self@.max_key_size as int, self@.max_value_size as int),
    {
        proof {
            use_type_invariant(&self.sizes);
        }
        record_size(self.sizes.max_key_size, self.sizes.max_value_size)
    }

    /// The root node that was read when the index was opened.
    pub fn root(&self) -> (root: Option<&Node<K, V>>)
        ensures
            match root {
                Some(node) => self@.root == Some(*node),
                None => self@.root is None,
            },
    {
        self.root.as_ref()
    }

    /// The largest encoded key, in bytes.
    pub fn max_key_size(&self) -> (size: usize)
        ensures
            size == self@.max_key_size,
    {
        self.sizes.max_key_size
    }

    /// The largest encoded value, in bytes.
    pub fn max_value_size(&self) -> (size: usize)
        ensures
            size == self@.max_value_size,
    {
        self.sizes.max_value_size
    }

    /// The overlay of pairs that were inserted and not yet merged.
    pub fn overlay(&self) -> (overlay: &Overlay<K, V>)
        ensures
            overlay@ == self@.overlay,
    {
        &self.mem_tree
    }

    /// Adds a pair to the overlay. This is the second half of an insert: the
    /// record of the pair must have reached the log before.
    pub fn apply(&mut self, key: K, value: V)
        ensures
            final(self)@.root == old(self)@.root,
            final(self)@.max_key_size == old(self)@.max_key_size,
            final(self)@.max_value_size == old(self)@.max_value_size,
            totally_ordered::<K>() && totally_ordered::<V>() ==> final(self)@.overlay
                == insert_pair(old(self)@.overlay, key, value),
    {
        self.mem_tree.insert(key, value);
    }

    /// Merges the overlay into the tree on disk. Not implemented: the index
    /// is left exactly as it was.
    pub fn compact(&mut self)
        ensures
            *final(self) == *old(self),
    {
    }
}

impl<K: KeyType + Encodable + Decodable, V: ValueType + Encodable + Decodable> BTree<K, V> {
    /// Opens an index on a data file, with an overlay that was replayed from
    /// its log.
    ///
    /// An empty file receives the header. Any other file must start with the
    /// header; where it is long enough to end in a node slot, that slot is
    /// decoded and kept as the root. On an error the data file is left as it
    /// was.
    pub fn open(
        tree_file: &mut Vec<u8>,
        mem_tree: Overlay<K, V>,
        max_key_size: usize,
        max_value_size: usize,
    ) -> (result: Result<BTree<K, V>, Error>)
        requires
            valid_sizes(max_key_size as int, max_value_size as int),
        ensures
            match result {
                Ok(tree) => {
                    &&& tree@.max_key_size == max_key_size
                    &&& tree@.max_value_size == max_value_size
                    &&& tree@.overlay == mem_tree@
                    &&& final(tree_file)@ == opened(old(tree_file)@)
                    &&& layout_of(
                        old(tree_file)@,
                        spec_node_size(max_key_size as int, max_value_size as int),
                    ) matches Ok(found) && (tree@.root is Some <==> found is Rooted)
                },
                Err(error) => {
                    &&& final(tree_file)@ == old(tree_file)@
                    &&& match layout_of(
                        old(tree_file)@,
                        spec_node_size(max_key_size as int, max_value_size as int),
                    ) {
                        Ok(found) => found is Rooted && error is Decode,
                        Err(refused) => error == refused,
                    }
                },
            },
    {
        let slot_size = node_size(max_key_size, max_value_size);
        let root = match layout(tree_file.as_slice(), slot_size)? {
            Layout::Fresh => {
                let mut written = file_header();
                tree_file.append(&mut written);
                assert(tree_file@ =~= header());
                None
            },
            Layout::Rootless => None,
            Layout::Rooted { .. } => {
                let slot = root_slot(tree_file.as_slice(), slot_size);
                Some(Node::decode(slot)?)
            },
        };
        Ok(BTree { root, sizes: Sizes { max_key_size, max_value_size }, mem_tree })
    }

    /// Opens an index on the contents of its data file and of its log.
    ///
    /// The log is replayed into a fresh overlay first; then the data file is
    /// opened as `open` does. With an empty log and a data file that does not
    /// end in a root slot, nothing is decoded, and the outcome is determined
    /// by the data file alone.
    pub fn new(
        tree_file: &mut Vec<u8>,
        wal_file: &[u8],
        max_key_size: usize,
        max_value_size: usize,
    ) -> (result: Result<BTree<K, V>, Error>)
        requires
            valid_sizes(max_key_size as int, max_value_size as int),
        ensures
            match result {
                Ok(tree) => {
                    &&& tree@.max_key_size == max_key_size
                    &&& tree@.max_value_size == max_value_size
                    &&& final(tree_file)@ == opened(old(tree_file)@)
                    &&& ends_at_boundary(wal_file@, tree@.record_size())
                    &&& layout_of(
                        old(tree_file)@,
                        spec_node_size(max_key_size as int, max_value_size as int),
                    ) matches Ok(found) && (tree@.root is Some <==> found is Rooted)
                    &&& wal_file@.len() == 0 ==> tree@.overlay == Map::<K, Set<V>>::empty()
                    &&& totally_ordered::<K>() && totally_ordered::<V>() ==> exists|
                        pairs: Seq<(K, V)>,
                    |
                        pairs.len() == records(wal_file@, tree@.record_size()).len()
                            && tree@.overlay == #[trigger] insert_all(
                            Map::<K, Set<V>>::empty(),
                            pairs,
                        )
                },
                Err(error) => {
                    &&& final(tree_file)@ == old(tree_file)@
                    &&& open_error(
                        old(tree_file)@,
                        wal_file@,
                        max_key_size as int,
                        max_value_size as int,
                        error,
                    )
                },
            },
            wal_file@.len() == 0 ==> match layout_of(
                old(tree_file)@,
                spec_node_size(max_key_size as int, max_value_size as int),
            ) {
                Ok(Layout::Rooted { .. }) => true,
                Ok(_) => result is Ok,
                Err(refused) => result is Err && result->Err_0 == refused,
            },
    {
        let mem_tree = replay::<K, V>(wal_file, record_size(max_key_size, max_value_size))?;
        BTree::open(tree_file, mem_tree, max_key_size, max_value_size)
    }

    /// The log record of a pair: its encoding, padded with zeros to the width
    /// of a record. A pair whose encoding is wider than a record is refused
    /// as `Oversized`.
    pub fn record(&self, key: &K, value: &V) -> (record: Result<Vec<u8>, Error>)
        ensures
            match record {
                Ok(bytes) => exists|encoded: Seq<u8>|
                    encoded.len() <= self@.record_size() && bytes@ == #[trigger] padded(
                        encoded,
                        self@.record_size(),
                    ),
                Err(error) => error is Oversized || error is Encode,
            },
            record is Ok ==> record.unwrap()@.len() == self@.record_size(),
    {
        let size = self.record_size();
        let encoded = match encode_pair(key, value, size as u64) {
            Ok(bytes) => Ok(bytes),
            Err(error) => Err(encode_failure(&error)),
        };
        frame(encoded, size)
    }

    /// Inserts a pair: appends its record to the log, then adds the pair to
    /// the overlay, and returns the number of bytes appended. A pair that is
    /// too large for a record is refused, and then neither the log nor the
    /// index has changed.
    pub fn insert(&mut self, key: K, value: V, wal_file: &mut Vec<u8>) -> (result: Result<
        usize,
        Error,
    >)
        ensures
            final(self)@.root == old(self)@.root,
            final(self)@.max_key_size == old(self)@.max_key_size,
            final(self)@.max_value_size == old(self)@.max_value_size,
            match result {
                Ok(written) => {
                    &&& written == old(self)@.record_size()
                    &&& exists|encoded: Seq<u8>|
                        encoded.len() <= written && final(wal_file)@ == old(wal_file)@
                            + #[trigger] padded(encoded, written as int)
                    &&& final(wal_file)@.len() == old(wal_file)@.len() + written
                    &&& ends_at_boundary(old(wal_file)@, written as int) ==> {
                        &&& ends_at_boundary(final(wal_file)@, written as int)
                        &&& records(final(wal_file)@, written as int) == records(
                            old(wal_file)@,
                            written as int,
                        ).push(
                            final(wal_file)@.subrange(
                                old(wal_file)@.len() as int,
                                final(wal_file)@.len() as int,
                            ),
                        )
                    }
                    &&& totally_ordered::<K>() && totally_ordered::<V>() ==> final(self)@.overlay
                        == insert_pair(old(self)@.overlay, key, value)
                },
                Err(error) => {
                    &&& error is Oversized || error is Encode
                    &&& final(self)@ == old(self)@
                    &&& final(wal_file)@ == old(wal_file)@
                },
            },
    {
        let mut record = self.record(&key, &value)?;
        let written = record.len();
        proof {
            use_type_invariant(&self.sizes);
            if ends_at_boundary(wal_file@, written as int) {
                lemma_append_record(wal_file@, record@, written as int);
            }
            assert((wal_file@ + record@).subrange(
                wal_file@.len() as int,
                wal_file@.len() + written,
            ) =~= record@);
        }
        wal_file.append(&mut record);
        self.mem_tree.insert(key, value);
        Ok(written)
    }
}

} // verus!
