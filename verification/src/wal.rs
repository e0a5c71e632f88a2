//! The write-ahead log: a flat sequence of fixed-width records.
//!
//! Each record is one encoded (key, value) pair, padded with zero bytes to
//! the record width, so that the log can be walked by offset. Opening an index
//! replays the log, first record to last, into a fresh overlay.

use vstd::prelude::*;
use vstd::arithmetic::div_mod::lemma_fundamental_div_mod_converse;
use vstd::slice::slice_subrange;
use rustc_serialize::Decodable;
use crate::codec::{decode_as, decode_failure};
use crate::error::{DecodeFailure, EncodeFailure, Error};
use crate::overlay::{insert_all, insert_pair, lemma_insert_all_push, Overlay};
use crate::types::{totally_ordered, KeyType, ValueType};

verus! {

/// `n` zero bytes.
pub open spec fn zeros(n: int) -> Seq<u8> {
    Seq::new(n as nat, |i: int| 0u8)
}

/// The encoded bytes followed by zero bytes up to the record width.
pub open spec fn padded(encoded: Seq<u8>, record_size: int) -> Seq<u8> {
    encoded + zeros(record_size - encoded.len())
}

/// The error that a failure of the encoder becomes.
pub open spec fn encode_error(failure: EncodeFailure) -> Error {
    match failure {
        EncodeFailure::SizeLimit => Error::Oversized,
        EncodeFailure::Io => Error::Encode,
    }
}

/// The `i`-th record of a log.
pub open spec fn record_at(wal: Seq<u8>, i: int, record_size: int) -> Seq<u8> {
    wal.subrange(i * record_size, (i + 1) * record_size)
}

/// The complete records of a log, in order.
pub open spec fn records(wal: Seq<u8>, record_size: int) -> Seq<Seq<u8>> {
    Seq::new((wal.len() as int / record_size) as nat, |i: int| record_at(wal, i, record_size))
}

/// The log ends at a record boundary.
pub open spec fn ends_at_boundary(wal: Seq<u8>, record_size: int) -> bool {
    wal.len() as int % record_size == 0
}

/// Makes a log record of what the encoder returned: the bytes padded with
/// zeros to the record width, or `Oversized` where they are too long or the
/// encoder gave up on the size bound.
pub fn frame(encoded: Result<Vec<u8>, EncodeFailure>, record_size: usize) -> (record: Result<
    Vec<u8>,
    Error,
>)
    ensures
        match encoded {
            Ok(bytes) => if bytes@.len() > record_size {
                record == Err::<Vec<u8>, Error>(Error::Oversized)
            } else {
                record is Ok && record.unwrap()@ == padded(bytes@, record_size as int)
            },
            Err(failure) => record == Err::<Vec<u8>, Error>(encode_error(failure)),
        },
        record is Ok ==> record.unwrap()@.len() == record_size,
{
    match encoded {
        Ok(bytes) => {
            if bytes.len() > record_size {
                return Err(Error::Oversized);
            }
            let ghost head = bytes@;
            let mut record = bytes;
            while record.len() < record_size
                invariant
                    head.len() <= record@.len() <= record_size,
                    record@ == head + zeros(record@.len() - head.len()),
                decreases record_size - record@.len(),
            {
                record.push(0u8);
                assert(record@ =~= head + zeros(record@.len() - head.len()));
            }
            Ok(record)
        },
        Err(EncodeFailure::SizeLimit) => Err(Error::Oversized),
        Err(EncodeFailure::Io) => Err(Error::Encode),
    }
}

/// Applies to the overlay what the codec made of one log record: a decoded
/// pair is inserted, a failure ends the replay and leaves the overlay as it
/// was.
pub fn apply_decoded<K: KeyType, V: ValueType>(
    overlay: &mut Overlay<K, V>,
    decoded: Result<(K, V), DecodeFailure>,
) -> (result: Result<(), Error>)
    ensures
        match decoded {
            Ok(pair) => result is Ok && (totally_ordered::<K>() && totally_ordered::<V>()
                ==> final(overlay)@ == insert_pair(old(overlay)@, pair.0, pair.1)),
            Err(failure) => result == Err::<(), Error>(Error::Decode(failure)) && final(overlay)@
                == old(overlay)@,
        },
{
    match decoded {
        Ok((key, value)) => {
            overlay.insert(key, value);
            Ok(())
        },
        Err(failure) => Err(Error::Decode(failure)),
    }
}

/// Replays a log into a fresh overlay.
///
/// The records are decoded and inserted in order. A record that the codec
/// cannot decode ends the replay with its failure. A log that does not end at
/// a record boundary is an error too, reported once every complete record has
/// been decoded. What the overlay holds rests on what the codec decoded: it is
/// the result of inserting one pair for each record.
pub fn replay<K: KeyType + Decodable, V: ValueType + Decodable>(wal: &[u8], record_size: usize) -> (result:
    Result<Overlay<K, V>, Error>)
    requires
        record_size >= 1,
    ensures
        match result {
            Ok(overlay) => {
                &&& ends_at_boundary(wal@, record_size as int)
                &&& totally_ordered::<K>() && totally_ordered::<V>() ==> exists|pairs: Seq<(K, V)>|
                    pairs.len() == records(wal@, record_size as int).len() && overlay@
                        == #[trigger] insert_all(Map::<K, Set<V>>::empty(), pairs)
            },
            Err(Error::UnexpectedEof) => !ends_at_boundary(wal@, record_size as int),
            Err(Error::Decode(_)) => wal@.len() >= record_size,
            Err(_) => false,
        },
        wal@.len() == 0 ==> result is Ok && result.unwrap()@ == Map::<K, Set<V>>::empty(),
{
    let mut overlay: Overlay<K, V> = Overlay::new();
    let ghost mut pairs: Seq<(K, V)> = Seq::empty();
    let mut pos: usize = 0;
    let ghost mut done: int = 0;
    while wal.len() - pos >= record_size
        invariant
            record_size >= 1,
            pos <= wal@.len(),
            done >= 0,
            pos == done * record_size,
            pairs.len() == done,
            totally_ordered::<K>() && totally_ordered::<V>() ==> overlay@ == insert_all(
                Map::<K, Set<V>>::empty(),
                pairs,
            ),
            done == 0 ==> overlay@ == Map::<K, Set<V>>::empty(),
        decreases wal@.len() - pos,
    {
        let chunk = slice_subrange(wal, pos, pos + record_size);
        let decoded = match decode_as::<(K, V)>(chunk) {
            Ok(pair) => Ok(pair),
            Err(error) => Err(decode_failure(&error)),
        };
        apply_decoded(&mut overlay, decoded)?;
        proof {
            let pair = decoded.unwrap();
            lemma_insert_all_push(Map::<K, Set<V>>::empty(), pairs, pair.0, pair.1);
            assert((done + 1) * record_size == done * record_size + record_size) by (nonlinear_arith);
            pairs = pairs.push(pair);
            done = done + 1;
        }
        pos += record_size;
    }
    proof {
        lemma_fundamental_div_mod_converse(
            wal@.len() as int,
            record_size as int,
            done,
            wal@.len() - pos,
        );
    }
    if pos != wal.len() {
        return Err(Error::UnexpectedEof);
    }
    Ok(overlay)
}

/// Appending one record to a log that ends at a record boundary adds exactly
/// that record to its records and leaves the others as they were.
pub proof fn lemma_append_record(wal: Seq<u8>, record: Seq<u8>, record_size: int)
    requires
        record_size >= 1,
        ends_at_boundary(wal, record_size),
        record.len() == record_size,
    ensures
        ends_at_boundary(wal + record, record_size),
        records(wal + record, record_size) == records(wal, record_size).push(record),
{
    let n = wal.len() as int / record_size;
    let grown = wal + record;
    assert(wal.len() == n * record_size) by {
        vstd::arithmetic::div_mod::lemma_fundamental_div_mod(wal.len() as int, record_size);
        assert(record_size * n == n * record_size) by (nonlinear_arith);
    }
    assert(grown.len() == (n + 1) * record_size + 0) by (nonlinear_arith)
        requires
            grown.len() == wal.len() + record_size,
            wal.len() == n * record_size,
    ;
    lemma_fundamental_div_mod_converse(grown.len() as int, record_size, n + 1, 0);
    assert forall|i: int| 0 <= i < n + 1 implies #[trigger] record_at(grown, i, record_size)
        == records(wal, record_size).push(record)[i] by {
        assert(0 <= i * record_size && (i + 1) * record_size <= (n + 1) * record_size
            && (i + 1) * record_size == i * record_size + record_size) by (nonlinear_arith)
            requires
                0 <= i < n + 1,
                record_size >= 1,
        ;
        if i < n {
            assert((i + 1) * record_size <= n * record_size) by (nonlinear_arith)
                requires
                    i < n,
                    record_size >= 1,
            ;
            assert(record_at(grown, i, record_size) =~= record_at(wal, i, record_size));
        } else {
            assert(record_at(grown, i, record_size) =~= record);
        }
    }
    assert(records(grown, record_size) =~= records(wal, record_size).push(record));
}

} // verus!
