//! The layout of the data file: header, version, and fixed-width node slots.
//!
//! ```text
//! | 0x42 0x2b 0x54 0x72 | 0x65 0x65 0x00 0xVV |
//! | B    +    T    r    | e    e    \0   0xVV |
//! | leaf records, smallest first              |
//! | internal nodes ...                        |
//! | root node                                 |
//! ```
//!
//! Every node occupies one slot of `node_size` bytes, so the root is found by
//! its distance from the end of the file.

use vstd::prelude::*;
use vstd::slice::slice_subrange;
use crate::error::Error;

verus! {

/// The number of children of an internal node.
pub const NUM_CHILDREN: usize = 32;

/// The version byte that follows the magic text.
pub const CURRENT_VERSION: u8 = 0x01;

/// The length of the magic text together with the version byte.
pub const HEADER_LEN: usize = 8;

/// The width of a file offset inside a node.
pub const OFFSET_SIZE: usize = 8;

/// The magic text `"B+Tree\0"`.
pub open spec fn magic() -> Seq<u8> {
    seq![0x42u8, 0x2Bu8, 0x54u8, 0x72u8, 0x65u8, 0x65u8, 0x00u8]
}

/// The first eight bytes of every data file: the magic text, then the version.
pub open spec fn header() -> Seq<u8> {
    magic().push(CURRENT_VERSION)
}

/// The width of one log record.
pub open spec fn spec_record_size(max_key_size: int, max_value_size: int) -> int {
    max_key_size + max_value_size
}

/// The width of one node slot: a key, the parent's offset, and the larger of a
/// value and a full array of (key, offset) children.
pub open spec fn spec_node_size(max_key_size: int, max_value_size: int) -> int {
    let child = max_key_size + OFFSET_SIZE as int;
    let children = child * NUM_CHILDREN as int;
    child + if max_value_size >= children { max_value_size } else { children }
}

/// Both sizes are positive and a node slot's width fits in a `usize`.
pub open spec fn valid_sizes(max_key_size: int, max_value_size: int) -> bool {
    &&& max_key_size >= 1
    &&& max_value_size >= 1
    &&& spec_node_size(max_key_size, max_value_size) <= usize::MAX
}

/// Tells whether the sizes are valid, without overflowing.
pub fn sizes_fit(max_key_size: usize, max_value_size: usize) -> (ok: bool)
    ensures
        ok == valid_sizes(max_key_size as int, max_value_size as int),
{
    if max_key_size < 1 || max_value_size < 1 {
        return false;
    }
    let child = match max_key_size.checked_add(OFFSET_SIZE) {
        Some(c) => c,
        None => {
            return false;
        },
    };
    let children = match child.checked_mul(NUM_CHILDREN) {
        Some(c) => c,
        None => {
            return false;
        },
    };
    let payload = if max_value_size >= children {
        max_value_size
    } else {
        children
    };
    child.checked_add(payload).is_some()
}

/// The width of one log record.
pub fn record_size(max_key_size: usize, max_value_size: usize) -> (size: usize)
    requires
        valid_sizes(max_key_size as int, max_value_size as int),
    ensures
        size == spec_record_size(max_key_size as int, max_value_size as int),
        size >= 2,
{
    max_key_size + max_value_size
}

/// The width of one node slot.
pub fn node_size(max_key_size: usize, max_value_size: usize) -> (size: usize)
    requires
        valid_sizes(max_key_size as int, max_value_size as int),
    ensures
        size == spec_node_size(max_key_size as int, max_value_size as int),
        size > max_key_size + max_value_size,
{
    let child = max_key_size + OFFSET_SIZE;
    let children = child * NUM_CHILDREN;
    if max_value_size >= children {
        child + max_value_size
    } else {
        child + children
    }
}

/// The header that a new data file starts with.
pub fn file_header() -> (bytes: Vec<u8>)
    ensures
        bytes@ == header(),
        bytes@.len() == HEADER_LEN,
{
    let mut bytes: Vec<u8> = Vec::new();
    bytes.push(0x42);
    bytes.push(0x2B);
    bytes.push(0x54);
    bytes.push(0x72);
    bytes.push(0x65);
    bytes.push(0x65);
    bytes.push(0x00);
    bytes.push(CURRENT_VERSION);
    assert(bytes@ =~= header());
    bytes
}

/// The file starts with the magic text and the current version.
pub open spec fn starts_with_header(file: Seq<u8>) -> bool {
    file.len() >= HEADER_LEN && file.subrange(0, HEADER_LEN as int) == header()
}

/// Tells whether the file starts with the magic text and the current version.
pub fn has_header(file: &[u8]) -> (ok: bool)
    ensures
        ok == starts_with_header(file@),
{
    if file.len() < HEADER_LEN {
        return false;
    }
    let expected = file_header();
    let mut i: usize = 0;
    while i < HEADER_LEN
        invariant
            i <= HEADER_LEN,
            file@.len() >= HEADER_LEN,
            expected@ == header(),
            forall|j: int| 0 <= j < i ==> file@[j] == header()[j],
        decreases HEADER_LEN - i,
    {
        if file[i] != expected[i] {
            assert(file@.subrange(0, HEADER_LEN as int)[i as int] != header()[i as int]);
            return false;
        }
        i += 1;
    }
    assert(file@.subrange(0, HEADER_LEN as int) =~= header());
    true
}

/// What a data file holds, as far as opening it is concerned.
#[derive(Clone, Copy, Debug, PartialEq, Eq, Structural)]
pub enum Layout {
    /// The file is empty: it was just created and has no header yet.
    Fresh,
    /// The file has its header but is too short to hold a root node.
    Rootless,
    /// The file has its header, and its last slot, at `offset`, is the root.
    Rooted { offset: usize },
}

/// The layout of a data file, or the reason why it cannot be opened.
pub open spec fn layout_of(file: Seq<u8>, node_size: int) -> Result<Layout, Error> {
    if file.len() == 0 {
        Ok(Layout::Fresh)
    } else if file.len() < HEADER_LEN {
        Err(Error::UnexpectedEof)
    } else if !starts_with_header(file) {
        Err(Error::InvalidFile)
    } else if file.len() < HEADER_LEN + node_size {
        Ok(Layout::Rootless)
    } else {
        Ok(Layout::Rooted { offset: (file.len() - node_size) as usize })
    }
}

/// A data file of at least eight bytes that does not start with the header
/// and the current version is refused as invalid, whatever follows.
pub proof fn lemma_corrupt_header_refused(file: Seq<u8>, node_size: int)
    requires
        file.len() >= HEADER_LEN,
        file.subrange(0, HEADER_LEN as int) != header(),
    ensures
        layout_of(file, node_size) == Err::<Layout, Error>(Error::InvalidFile),
{
}

/// Classifies a data file by its length and its first eight bytes.
pub fn layout(file: &[u8], node_size: usize) -> (result: Result<Layout, Error>)
    ensures
        result == layout_of(file@, node_size as int),
{
    if file.len() == 0 {
        Ok(Layout::Fresh)
    } else if file.len() < HEADER_LEN {
        Err(Error::UnexpectedEof)
    } else if !has_header(file) {
        Err(Error::InvalidFile)
    } else if file.len() - HEADER_LEN < node_size {
        Ok(Layout::Rootless)
    } else {
        Ok(Layout::Rooted { offset: file.len() - node_size })
    }
}

/// The slot of the root node: the last `node_size` bytes of the file.
pub open spec fn spec_root_slot(file: Seq<u8>, node_size: int) -> Seq<u8> {
    file.subrange(file.len() - node_size, file.len() as int)
}

/// The bytes of the root slot of a file whose layout is `Rooted`.
pub fn root_slot(file: &[u8], node_size: usize) -> (slot: &[u8])
    requires
        layout_of(file@, node_size as int) is Ok,
        layout_of(file@, node_size as int).unwrap() is Rooted,
    ensures
        slot@ == spec_root_slot(file@, node_size as int),
        slot@.len() == node_size,
{
    slice_subrange(file, file.len() - node_size, file.len())
}

} // verus!
