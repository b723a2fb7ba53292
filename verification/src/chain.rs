//! The chain: an ordered sequence of records, growing only by append,
//! validated by a linear pairwise walk that recomputes digests.
//!
//! The validator keeps a deliberate quirk of this design: when a check
//! fails, it overwrites the offending record's stored digest with the
//! freshly recomputed one before returning `false`. This "repair" makes
//! validation order-dependent — a second call after a failure can answer
//! differently — and the contract of [`Blockchain::is_valid`] states the
//! mutation exactly, so a caller sees precisely what was touched.

use vstd::prelude::*;

use crate::block::Block;
use crate::block::BlockView;
use crate::block::HasheableDataBlock;
use crate::block::LedgerError;
use crate::block::spec_block_digest;
use crate::digest::lemma_digest_injective_nonce;
use crate::digest::lemma_digest_injective_timestamp;
use crate::digest::spec_digest;
use crate::digest::spec_has_marker_prefix;

verus! {

/// The single check the validator applies to a pair of records: recompute
/// the digest of `with`'s hashed fields; when `current` and `with` carry
/// the same stored digest (in particular when they are the same record),
/// `current`'s stored digest must equal the recomputation, otherwise
/// `current`'s declared link must equal it.
pub open spec fn spec_check_ok(current: BlockView, with: BlockView) -> bool {
    if current.hash == with.hash {
        current.hash == spec_block_digest(with)
    } else {
        current.previous_hash == spec_block_digest(with)
    }
}

/// One validation step: the current record checked against its
/// predecessor, then against itself.
pub open spec fn spec_pair_ok(previous: BlockView, current: BlockView) -> bool {
    spec_check_ok(current, previous) && spec_check_ok(current, current)
}

/// Every validation step up to (excluding) position `k` passes.
pub open spec fn spec_valid_upto(s: Seq<BlockView>, k: int) -> bool {
    forall|i: int| 1 <= i < k ==> #[trigger] spec_pair_ok(s[i - 1], s[i])
}

/// Every validation step of the whole chain passes.
pub open spec fn spec_chain_valid(s: Seq<BlockView>) -> bool {
    spec_valid_upto(s, s.len() as int)
}

/// A record with its stored digest overwritten by the digest recomputed
/// from its current hashed fields — the validator's repair side effect.
pub open spec fn spec_repaired(b: BlockView) -> BlockView {
    BlockView { hash: spec_block_digest(b), ..b }
}

/// An untampered chain: every record's stored digest matches its hashed
/// fields, and every record's declared link matches the predecessor's
/// stored digest. Construction establishes this and append preserves it;
/// only direct mutation of a stored record can break it.
pub open spec fn spec_chain_intact(s: Seq<BlockView>) -> bool {
    &&& forall|i: int| 0 <= i < s.len() ==> (#[trigger] s[i]).hash == spec_block_digest(s[i])
    &&& forall|i: int| 1 <= i < s.len() ==> (#[trigger] s[i]).previous_hash == s[i - 1].hash
}

/// The outcome of one validator check: whether it passed, and the digest
/// that was recomputed for it.
struct IsValidResult {
    ok: bool,
    hash: String,
}

/// The ledger: the records in chain order (position `0` is the genesis
/// record) and the difficulty every admitted record was mined under.
#[derive(Debug)]
pub struct Blockchain {
    /// The records, in insertion order. The chain grows only by append.
    pub chain: Vec<Block>,
    /// The number of leading marker characters a mined digest must carry.
    pub difficulty: usize,
}

impl View for Blockchain {
    type V = Seq<BlockView>;

    open spec fn view(&self) -> Seq<BlockView> {
        self.chain@.map_values(|b: Block| b@)
    }
}

impl Blockchain {
    /// A new ledger holding exactly one record: the genesis record, with
    /// payload `"Genesis Block"` and the sentinel link `"0"`, mined under
    /// `difficulty`. Fails exactly when no nonce at all yields a digest
    /// with the required marker prefix for the genesis field tuple.
    pub fn new(difficulty: usize, timestamp: u64) -> (r: Result<Blockchain, LedgerError>)
        ensures
            r matches Ok(c) ==> {
                &&& c.difficulty == difficulty
                &&& c@.len() == 1
                &&& c@[0].data == "Genesis Block"@
                &&& c@[0].previous_hash == "0"@
                &&& c@[0].timestamp == timestamp
                &&& spec_has_marker_prefix(c@[0].hash, difficulty as nat)
                &&& c@[0].hash == spec_block_digest(c@[0])
                &&& forall|n: u32|
                    n < c@[0].nonce ==> !spec_has_marker_prefix(
                        spec_digest("Genesis Block"@, timestamp, n),
                        difficulty as nat,
                    )
                &&& spec_chain_intact(c@)
            },
            (r is Ok) <==> exists|n: u32|
                spec_has_marker_prefix(
                    spec_digest("Genesis Block"@, timestamp, n),
                    difficulty as nat,
                ),
            r is Err ==> r == Err::<Blockchain, LedgerError>(LedgerError::NonceExhausted),
    {
        let mut chain: Vec<Block> = Vec::new();
        match Self::genesis(difficulty, timestamp) {
            Ok(genesis) => {
                chain.push(genesis);
                Ok(Blockchain { chain, difficulty })
            },
            Err(e) => Err(e),
        }
    }

    /// The chain's root record: payload `"Genesis Block"`, sentinel link
    /// `"0"`, mined under `difficulty`.
    fn genesis(difficulty: usize, timestamp: u64) -> (r: Result<Block, LedgerError>)
        ensures
            r matches Ok(b) ==> {
                &&& b@.data == "Genesis Block"@
                &&& b@.timestamp == timestamp
                &&& b@.previous_hash == "0"@
                &&& b@.hash == spec_block_digest(b@)
                &&& spec_has_marker_prefix(b@.hash, difficulty as nat)
                &&& forall|n: u32|
                    n < b@.nonce ==> !spec_has_marker_prefix(
                        spec_digest("Genesis Block"@, timestamp, n),
                        difficulty as nat,
                    )
            },
            (r is Ok) <==> exists|n: u32|
                spec_has_marker_prefix(
                    spec_digest("Genesis Block"@, timestamp, n),
                    difficulty as nat,
                ),
            r is Err ==> r == Err::<Block, LedgerError>(LedgerError::NonceExhausted),
    {
        let mut genesis = Block::new("Genesis Block", "0".to_owned(), timestamp);
        match Block::mine(&mut genesis, difficulty) {
            Ok(()) => Ok(genesis),
            Err(e) => Err(e),
        }
    }

    /// Append a record carrying `data`: link it to the current tail's
    /// stored digest, mine it under the chain's difficulty, and push it.
    /// Fails exactly when no nonce at all yields a digest with the
    /// required marker prefix for the new field tuple, and then leaves the
    /// chain unmodified — no partial insertion.
    pub fn add_block(&mut self, data: &str, timestamp: u64) -> (r: Result<(), LedgerError>)
        requires
            old(self)@.len() >= 1,
        ensures
            final(self).difficulty == old(self).difficulty,
            r is Ok ==> {
                &&& final(self)@.len() == old(self)@.len() + 1
                &&& forall|i: int| 0 <= i < old(self)@.len() ==> final(self)@[i] == old(self)@[i]
                &&& final(self)@.last().data == data@
                &&& final(self)@.last().timestamp == timestamp
                &&& final(self)@.last().previous_hash == old(self)@.last().hash
                &&& final(self)@.last().hash == spec_block_digest(final(self)@.last())
                &&& spec_has_marker_prefix(
                    final(self)@.last().hash,
                    old(self).difficulty as nat,
                )
                &&& forall|n: u32|
                    n < final(self)@.last().nonce ==> !spec_has_marker_prefix(
                        spec_digest(data@, timestamp, n),
                        old(self).difficulty as nat,
                    )
                &&& (spec_chain_intact(old(self)@) ==> spec_chain_intact(final(self)@))
            },
            r is Err ==> final(self)@ == old(self)@ && r == Err::<(), LedgerError>(
                LedgerError::NonceExhausted,
            ),
            (r is Ok) <==> exists|n: u32|
                spec_has_marker_prefix(
                    spec_digest(data@, timestamp, n),
                    old(self).difficulty as nat,
                ),
    {
        let previous_hash = self.chain[self.chain.len() - 1].hash.clone();
        let mut new_block = Block::new(data, previous_hash, timestamp);
        match Block::mine(&mut new_block, self.difficulty) {
            Ok(()) => {
                let ghost prior = self@;
                self.chain.push(new_block);
                proof {
                    assert(self@ =~= prior.push(new_block@));
                    if spec_chain_intact(prior) {
                        assert forall|i: int|
                            1 <= i < self@.len() implies (#[trigger] self@[i]).previous_hash
                            == self@[i - 1].hash by {
                            if i < prior.len() {
                                assert(prior[i].previous_hash == prior[i - 1].hash);
                            }
                        };
                        assert(spec_chain_intact(self@));
                    }
                }
                Ok(())
            },
            Err(e) => Err(e),
        }
    }

    /// Walk the chain from position `1`, checking each record against its
    /// predecessor and then against itself, and answer whether every check
    /// passes — exactly [`spec_chain_valid`] of the chain as it stood at
    /// the call.
    ///
    /// On the first failure the walk stops, the offending record's stored
    /// digest is overwritten with the recomputed one (the repair side
    /// effect this design carries), and the answer is `false`; when the
    /// answer is `true` the chain is untouched.
    pub fn is_valid(&mut self) -> (r: bool)
        ensures
            r == spec_chain_valid(old(self)@),
            final(self).difficulty == old(self).difficulty,
            r ==> final(self)@ == old(self)@,
            !r ==> exists|i: int|
                {
                    &&& 1 <= i < old(self)@.len()
                    &&& spec_valid_upto(old(self)@, i)
                    &&& !spec_pair_ok(old(self)@[i - 1], old(self)@[i])
                    &&& final(self)@ == if !spec_check_ok(old(self)@[i], old(self)@[i - 1]) {
                        old(self)@.update(i - 1, spec_repaired(old(self)@[i - 1]))
                    } else {
                        old(self)@.update(i, spec_repaired(old(self)@[i]))
                    }
                },
    {
        let mut index: usize = 1;

        while index < self.chain.len()
            invariant
                1 <= index,
                *self == *old(self),
                spec_valid_upto(self@, index as int),
            decreases self.chain.len() - index,
        {
            let check_previous = self.check_hash(&self.chain[index], &self.chain[index - 1]);
            if !check_previous.ok {
                self.chain[index - 1].hash = check_previous.hash;
                proof {
                    let k: int = index - 1;
                    assert(self@ =~= old(self)@.update(k, spec_repaired(old(self)@[k])));
                    assert(!spec_pair_ok(old(self)@[index - 1], old(self)@[index as int]));
                }
                return false;
            }

            let check_current = self.check_hash(&self.chain[index], &self.chain[index]);
            if !check_current.ok {
                self.chain[index].hash = check_current.hash;
                proof {
                    let k: int = index as int;
                    assert(self@ =~= old(self)@.update(k, spec_repaired(old(self)@[k])));
                    assert(!spec_pair_ok(old(self)@[index - 1], old(self)@[index as int]));
                }
                return false;
            }

            index = index + 1;
        }
        true
    }

    /// Recompute the digest of `with`'s hashed fields and apply the
    /// validator's check of `current` against it, handing back both the
    /// verdict and the recomputed digest.
    fn check_hash(&self, current: &Block, with: &Block) -> (r: IsValidResult)
        ensures
            r.hash@ == spec_block_digest(with@),
            r.ok == spec_check_ok(current@, with@),
    {
        let hash = Block::calculate_hash(
            HasheableDataBlock::new(with.data.clone(), with.timestamp, with.nonce),
        );

        if current.hash == with.hash {
            let check_hash = current.hash != hash;
            if check_hash {
                return IsValidResult { ok: false, hash };
            }
        } else {
            let check_hash = current.previous_hash != hash;
            if check_hash {
                return IsValidResult { ok: false, hash };
            }
        }

        IsValidResult { ok: true, hash }
    }
}

/// Law of link integrity: a chain that is intact — every stored digest
/// matches its record's hashed fields and every link matches the
/// predecessor's stored digest — passes every validation step, whatever
/// its length. A freshly built chain is intact by the contracts of
/// [`Blockchain::new`] and [`Blockchain::add_block`], so validation of an
/// untampered chain answers `true`.
pub proof fn lemma_intact_chain_valid(s: Seq<BlockView>)
    requires
        spec_chain_intact(s),
    ensures
        spec_chain_valid(s),
{
    assert forall|i: int| 1 <= i < s.len() implies #[trigger] spec_pair_ok(s[i - 1], s[i]) by {
        assert(s[i].hash == spec_block_digest(s[i]));
        assert(s[i - 1].hash == spec_block_digest(s[i - 1]));
        assert(s[i].previous_hash == s[i - 1].hash);
    };
}

/// Law of tamper detection: in an intact chain, replacing any record
/// other than the tail by one that keeps the stored digest but whose
/// hashed fields recompute to a different digest — a payload, timestamp
/// or nonce edit that does not collide — makes validation fail.
pub proof fn lemma_tamper_detected(s: Seq<BlockView>, i: int, b: BlockView)
    requires
        spec_chain_intact(s),
        0 <= i < s.len() - 1,
        b.hash == s[i].hash,
        spec_block_digest(b) != spec_block_digest(s[i]),
    ensures
        !spec_chain_valid(s.update(i, b)),
{
    let t = s.update(i, b);
    assert(s[i + 1].previous_hash == s[i].hash);
    assert(s[i].hash == spec_block_digest(s[i]));
    assert(!spec_check_ok(t[i + 1], t[i]));
    assert(!spec_pair_ok(t[(i + 1) - 1], t[i + 1]));
}

/// Law of tamper detection for a nonce edit: in an intact chain, changing
/// the nonce of any record other than the tail, and nothing else, makes
/// validation fail — with no collision caveat, because distinct nonces
/// always recompute to distinct digests.
pub proof fn lemma_tampered_nonce_detected(s: Seq<BlockView>, i: int, b: BlockView)
    requires
        spec_chain_intact(s),
        0 <= i < s.len() - 1,
        b.data == s[i].data,
        b.timestamp == s[i].timestamp,
        b.hash == s[i].hash,
        b.previous_hash == s[i].previous_hash,
        b.nonce != s[i].nonce,
    ensures
        !spec_chain_valid(s.update(i, b)),
{
    if spec_block_digest(b) == spec_block_digest(s[i]) {
        lemma_digest_injective_nonce(b.data, b.timestamp, b.nonce, s[i].nonce);
    }
    lemma_tamper_detected(s, i, b);
}

/// Law of tamper detection for a timestamp edit: in an intact chain,
/// changing the timestamp of any record other than the tail, and nothing
/// else, makes validation fail — with no collision caveat, because
/// distinct timestamps always recompute to distinct digests.
pub proof fn lemma_tampered_timestamp_detected(s: Seq<BlockView>, i: int, b: BlockView)
    requires
        spec_chain_intact(s),
        0 <= i < s.len() - 1,
        b.data == s[i].data,
        b.nonce == s[i].nonce,
        b.hash == s[i].hash,
        b.previous_hash == s[i].previous_hash,
        b.timestamp != s[i].timestamp,
    ensures
        !spec_chain_valid(s.update(i, b)),
{
    if spec_block_digest(b) == spec_block_digest(s[i]) {
        lemma_digest_injective_timestamp(b.data, b.timestamp, s[i].timestamp, b.nonce);
    }
    lemma_tamper_detected(s, i, b);
}

} // verus!
