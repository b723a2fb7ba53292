//! A single ledger record: payload, timestamp, nonce, its own digest and
//! the digest of its predecessor.
//!
//! A block is created with a placeholder digest and becomes final only once
//! [`Block::mine`] has found a nonce whose digest carries the required
//! marker prefix; from then on it is logically immutable. Timestamps are an
//! injected capability: the caller supplies the wall-clock reading, so the
//! whole construction is deterministic and fully specified.

use vstd::prelude::*;

use crate::digest::compute_digest;
use crate::digest::has_marker_prefix;
use crate::digest::spec_digest;
use crate::digest::spec_has_marker_prefix;

verus! {

/// The errors of the ledger.
#[derive(Clone, Copy, Debug, PartialEq, Eq, Structural)]
pub enum LedgerError {
    /// Mining ran through every remaining nonce without finding a digest
    /// that carries the required marker prefix.
    NonceExhausted,
}

/// The exact tuple of fields that participates in digest computation:
/// the payload, the timestamp and the nonce. The record's position in the
/// chain and its link to the predecessor are deliberately excluded.
pub struct HasheableDataBlock {
    pub data: String,
    pub timestamp: u64,
    pub nonce: u32,
}

impl HasheableDataBlock {
    /// Bundle the hashed fields of a record.
    pub fn new(data: String, timestamp: u64, nonce: u32) -> (r: Self)
        ensures
            r.data@ == data@,
            r.timestamp == timestamp,
            r.nonce == nonce,
    {
        HasheableDataBlock { data, timestamp, nonce }
    }
}

/// The mathematical value of a [`Block`]: its fields as sequences and
/// plain integers.
pub struct BlockView {
    pub data: Seq<char>,
    pub timestamp: u64,
    pub hash: Seq<char>,
    pub previous_hash: Seq<char>,
    pub nonce: u32,
}

/// The digest recomputed from a record's current hashed fields.
pub open spec fn spec_block_digest(b: BlockView) -> Seq<char> {
    spec_digest(b.data, b.timestamp, b.nonce)
}

/// A ledger record.
#[derive(Debug)]
pub struct Block {
    /// The payload.
    pub data: String,
    /// Seconds since the epoch, captured by the caller at construction and
    /// frozen into the digest input.
    pub timestamp: u64,
    /// The record's own digest; a placeholder until mining assigns it.
    pub hash: String,
    /// The digest of the predecessor record, `"0"` for the genesis record.
    pub previous_hash: String,
    /// The counter searched during mining.
    pub nonce: u32,
}

impl View for Block {
    type V = BlockView;

    open spec fn view(&self) -> BlockView {
        BlockView {
            data: self.data@,
            timestamp: self.timestamp,
            hash: self.hash@,
            previous_hash: self.previous_hash@,
            nonce: self.nonce,
        }
    }
}

impl Block {
    /// A fresh, not yet mined record: nonce `0` and a placeholder digest.
    /// The timestamp is supplied by the caller (an injected clock reading)
    /// and is frozen into the digest input from here on.
    pub fn new(data: &str, previous_hash: String, timestamp: u64) -> (r: Block)
        ensures
            r@.data == data@,
            r@.timestamp == timestamp,
            r@.hash == "0"@,
            r@.previous_hash == previous_hash@,
            r@.nonce == 0,
    {
        Block {
            data: data.to_owned(),
            timestamp,
            hash: "0".to_owned(),
            previous_hash,
            nonce: 0,
        }
    }

    /// The digest of a hashed field tuple, as text. The result is a pure
    /// function of the tuple: recomputing it over the same fields always
    /// yields the same digest.
    pub fn calculate_hash(data: HasheableDataBlock) -> (r: String)
        ensures
            r@ == spec_digest(data.data@, data.timestamp, data.nonce),
    {
        compute_digest(data.data.as_str(), data.timestamp, data.nonce)
    }

    /// Search nonces upward from the record's current nonce until the
    /// digest of `(data, timestamp, nonce)` begins with the marker
    /// character repeated `difficulty` times, then seal the winning digest
    /// and nonce into the record.
    ///
    /// The search succeeds exactly when some remaining nonce yields such a
    /// digest; when the whole remaining nonce space is exhausted first, the
    /// record is left unchanged and [`LedgerError::NonceExhausted`] comes
    /// back. A digest holds at most twenty decimal digits, so any
    /// `difficulty` above twenty makes exhaustion certain.
    pub fn mine(data: &mut Block, difficulty: usize) -> (r: Result<(), LedgerError>)
        ensures
            final(data)@.data == old(data)@.data,
            final(data)@.timestamp == old(data)@.timestamp,
            final(data)@.previous_hash == old(data)@.previous_hash,
            r is Ok ==> {
                &&& old(data)@.nonce <= final(data)@.nonce
                &&& final(data)@.hash == spec_block_digest(final(data)@)
                &&& spec_has_marker_prefix(final(data)@.hash, difficulty as nat)
                &&& forall|n: u32|
                    old(data)@.nonce <= n < final(data)@.nonce
                        ==> !spec_has_marker_prefix(
                        spec_digest(old(data)@.data, old(data)@.timestamp, n),
                        difficulty as nat,
                    )
            },
            r is Err ==> final(data)@ == old(data)@ && r == Err::<(), LedgerError>(
                LedgerError::NonceExhausted,
            ),
            (r is Ok) <==> exists|n: u32|
                old(data)@.nonce <= n && spec_has_marker_prefix(
                    spec_digest(old(data)@.data, old(data)@.timestamp, n),
                    difficulty as nat,
                ),
    {
        let mut nonce: u32 = data.nonce;
        loop
            invariant
                *data == *old(data),
                old(data)@.nonce <= nonce,
                forall|n: u32|
                    old(data)@.nonce <= n < nonce ==> !spec_has_marker_prefix(
                        spec_digest(old(data)@.data, old(data)@.timestamp, n),
                        difficulty as nat,
                    ),
            decreases u32::MAX - nonce,
        {
            let hash = compute_digest(data.data.as_str(), data.timestamp, nonce);
            if has_marker_prefix(hash.as_str(), difficulty) {
                data.hash = hash;
                data.nonce = nonce;
                return Ok(());
            }
            if nonce == u32::MAX {
                proof {
                    assert(forall|n: u32|
                        old(data)@.nonce <= n ==> !spec_has_marker_prefix(
                            spec_digest(old(data)@.data, old(data)@.timestamp, n),
                            difficulty as nat,
                        ));
                }
                return Err(LedgerError::NonceExhausted);
            }
            nonce = nonce + 1;
        }
    }
}

} // verus!
