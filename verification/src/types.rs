//! What a type must offer to serve as a key or as a value of the index.

use vstd::prelude::*;

verus! {

/// A key of the index: any totally ordered type. The functions that read or
/// write keys ask in addition that the codec can encode and decode them.
pub trait KeyType: Ord {

}

/// A value of the index: any totally ordered type. The functions that read or
/// write values ask in addition that the codec can encode and decode them.
pub trait ValueType: Ord {

}

impl<T> KeyType for T where T: Ord {

}

impl<T> ValueType for T where T: Ord {

}

/// The comparison of `T` is a total order that agrees with equality. The
/// ordered collections behave as maps and sets only for such types.
pub open spec fn totally_ordered<T: Ord>() -> bool {
    vstd::laws_cmp::obeys_cmp::<T>()
}

} // verus!
