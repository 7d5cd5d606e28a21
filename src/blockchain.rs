use vstd::prelude::*;
use vstd::utf8::encode_utf8;
use crate::block::{Block, BlockModel, hash_ok};
use crate::bytes::Bytes;
use crate::hashing::{sha256, sha256_of};
use crate::transaction::{Transaction, TransactionModel};

verus! {

/// The zone separator of a name, `.` in UTF-8.
pub const DOT: u8 = 46;

/// What became of a candidate block.
#[derive(Clone, Copy, Debug, PartialEq, Eq)]
pub enum AppendOutcome {
    /// The block was valid and is now the tip.
    Accepted,
    /// The block's `hash` is not its content hash.
    RejectedHashMismatch,
    /// The block's `prev_block_hash` is not the tip's `hash`.
    RejectedLinkageMismatch,
}

/// The verdict on `b` as a successor of `prev` (`None`: there is no tip yet).
pub open spec fn check_outcome(b: BlockModel, prev: Option<BlockModel>) -> AppendOutcome {
    if !hash_ok(b) {
        AppendOutcome::RejectedHashMismatch
    } else if prev is Some && b.prev_block_hash != prev->Some_0.hash {
        AppendOutcome::RejectedLinkageMismatch
    } else {
        AppendOutcome::Accepted
    }
}

/// No separator in `s[lo..hi]`.
pub open spec fn no_dot(s: Seq<u8>, lo: int, hi: int) -> bool {
    forall|i: int| lo <= i < hi ==> s[i] != DOT
}

/// `s[k]` is the one separator of `s`.
pub open spec fn single_dot_at(s: Seq<u8>, k: int) -> bool {
    0 <= k < s.len() && s[k] == DOT && no_dot(s, 0, k) && no_dot(s, k + 1, s.len() as int)
}

/// Some transaction of the history claims `id`.
pub open spec fn claimed(h: Seq<TransactionModel>, id: Seq<u8>) -> bool {
    exists|i: int| 0 <= i < h.len() && h[i].identity == id
}

/// Some transaction of the history claims `id` under a key other than `key`.
pub open spec fn claimed_by_other(h: Seq<TransactionModel>, id: Seq<u8>, key: Seq<u8>) -> bool {
    exists|i: int| 0 <= i < h.len() && h[i].identity == id && h[i].pub_key != key
}

/// Whether the holder of `key` may claim the name with UTF-8 bytes `name`,
/// given the transaction history `h`: the name is not empty, nobody else has
/// claimed it, and it is either a bare name or `local.zone` (one separator)
/// where `zone` has been claimed by anyone.
pub open spec fn domain_available(name: Seq<u8>, key: Seq<u8>, h: Seq<TransactionModel>) -> bool {
    &&& name.len() > 0
    &&& !claimed_by_other(h, sha256_of(name), key)
    &&& no_dot(name, 0, name.len() as int) || exists|k: int|
        single_dot_at(name, k) && claimed(h, sha256_of(name.subrange(k + 1, name.len() as int)))
}

/// `domain_available` with the hashes already taken: `name_id` is the
/// identity of the name and `zone_id` that of its zone (which matters only
/// when the name has exactly one separator).
pub open spec fn available_given(
    name: Seq<u8>,
    name_id: Seq<u8>,
    zone_id: Seq<u8>,
    key: Seq<u8>,
    h: Seq<TransactionModel>,
) -> bool {
    &&& name.len() > 0
    &&& !claimed_by_other(h, name_id, key)
    &&& no_dot(name, 0, name.len() as int) || (exists|k: int| single_dot_at(name, k)) && claimed(
        h,
        zone_id,
    )
}

/// The ledger: the blocks accepted since it was opened, the tip, and the
/// history of every transaction that the store holds.
pub struct Blockchain {
    pub chain_name: String,
    pub version_flags: u32,
    pub blocks: Vec<Block>,
    pub last_block: Option<Block>,
    pub history: Vec<Transaction>,
}

pub open spec fn block_option_view(b: Option<Block>) -> Option<BlockModel> {
    match b {
        Some(b) => Some(b@),
        None => None,
    }
}

impl Blockchain {
    /// The most recently accepted block.
    pub open spec fn tip(&self) -> Option<BlockModel> {
        block_option_view(self.last_block)
    }

    /// The transactions on record, oldest first.
    pub open spec fn history(&self) -> Seq<TransactionModel> {
        self.history@.map_values(|t: Transaction| t@)
    }

    /// The blocks accepted in this process, oldest first.
    pub open spec fn blocks_view(&self) -> Seq<BlockModel> {
        self.blocks@.map_values(|b: Block| b@)
    }

    /// Every block in memory carries its content hash and links to the block
    /// before it, and the last of them is the tip.
    pub open spec fn wf(&self) -> bool {
        &&& forall|i: int| 0 <= i < self.blocks@.len() ==> hash_ok(#[trigger] self.blocks@[i]@)
        &&& forall|i: int|
            0 < i < self.blocks@.len() ==> (#[trigger] self.blocks@[i]@).prev_block_hash
                == self.blocks@[i - 1]@.hash
        &&& self.blocks@.len() > 0 ==> self.tip() == Some(self.blocks@.last()@)
    }

    /// An empty ledger.
    pub fn new(chain_name: &str, version_flags: u32) -> (r: Self)
        ensures
            r.wf(),
            r.chain_name@ == chain_name@,
            r.version_flags == version_flags,
            r.blocks@.len() == 0,
            r.tip() is None,
            r.history().len() == 0,
    {
        Blockchain {
            chain_name: chain_name.to_owned(),
            version_flags,
            blocks: Vec::new(),
            last_block: None,
            history: Vec::new(),
        }
    }

    /// A ledger reopened over a store whose last block is `stored_tip` (if
    /// any) and whose transactions are `history`. A stored block wins over the
    /// given name and flags.
    pub fn restore(
        chain_name: &str,
        version_flags: u32,
        stored_tip: Option<Block>,
        history: Vec<Transaction>,
    ) -> (r: Self)
        ensures
            r.wf(),
            r.blocks@.len() == 0,
            r.tip() == block_option_view(stored_tip),
            r.history() == history@.map_values(|t: Transaction| t@),
            match stored_tip {
                Some(b) => r.chain_name@ == b.chain_name@ && r.version_flags == b.version_flags,
                None => r.chain_name@ == chain_name@ && r.version_flags == version_flags,
            },
    {
        let (name, flags) = match &stored_tip {
            Some(b) => (b.chain_name.clone(), b.version_flags),
            None => (chain_name.to_owned(), version_flags),
        };
        Blockchain {
            chain_name: name,
            version_flags: flags,
            blocks: Vec::new(),
            last_block: stored_tip,
            history,
        }
    }

    /// The tip, if any.
    pub fn get_last_block(&self) -> (r: Option<Block>)
        ensures
            block_option_view(r) == self.tip(),
    {
        match &self.last_block {
            Some(b) => Some(b.duplicate()),
            None => None,
        }
    }

    /// Whether the block carries its content hash.
    pub fn check_block_hash(block: &Block) -> (r: bool)
        ensures
            r == hash_ok(block@),
    {
        let expected = block.recompute_hash();
        expected.same(&block.hash)
    }

    /// The verdict on `block` as a successor of `prev_block`.
    pub fn check_block(block: &Block, prev_block: &Option<Block>) -> (r: AppendOutcome)
        ensures
            r == check_outcome(block@, block_option_view(*prev_block)),
    {
        if !Self::check_block_hash(block) {
            return AppendOutcome::RejectedHashMismatch;
        }
        match prev_block {
            None => AppendOutcome::Accepted,
            Some(prev) => {
                if block.prev_block_hash.same(&prev.hash) {
                    AppendOutcome::Accepted
                } else {
                    AppendOutcome::RejectedLinkageMismatch
                }
            },
        }
    }

    /// Appends `block` if it carries its content hash and links to the tip
    /// (or there is no tip yet); a rejected block changes nothing.
    pub fn add_block(&mut self, block: Block) -> (r: AppendOutcome)
        requires
            old(self).wf(),
        ensures
            final(self).wf(),
            r == check_outcome(block@, old(self).tip()),
            r == AppendOutcome::Accepted ==> {
                &&& hash_ok(block@)
                &&& old(self).tip() is Some ==> block@.prev_block_hash == old(
                    self,
                ).tip()->Some_0.hash
                &&& final(self).blocks_view() == old(self).blocks_view().push(block@)
                &&& final(self).tip() == Some(block@)
                &&& final(self).history() == match block@.transaction {
                    Some(t) => old(self).history().push(t),
                    None => old(self).history(),
                }
                &&& final(self).chain_name == old(self).chain_name
                &&& final(self).version_flags == old(self).version_flags
            },
            r != AppendOutcome::Accepted ==> *final(self) == *old(self),
            old(self).tip() is None ==> (r == AppendOutcome::Accepted <==> hash_ok(block@)),
            old(self).tip() is Some && block@.prev_block_hash != old(self).tip()->Some_0.hash
                ==> r != AppendOutcome::Accepted && *final(self) == *old(self),
    {
        let outcome = Self::check_block(&block, &self.last_block);
        match outcome {
            AppendOutcome::Accepted => {},
            _ => {
                return outcome;
            },
        }
        let ghost old_blocks = self.blocks@;
        let ghost old_history = self.history@;
        match &block.transaction {
            Some(t) => {
                self.history.push(t.duplicate());
            },
            None => {},
        }
        self.last_block = Some(block.duplicate());
        self.blocks.push(block);
        proof {
            assert(self.blocks@ == old_blocks.push(block));
            assert(self.blocks_view() =~= old_blocks.map_values(|b: Block| b@).push(block@));
            match block@.transaction {
                Some(t) => {
                    assert(self.history() =~= old_history.map_values(|t: Transaction| t@).push(
                        t,
                    ));
                },
                None => {
                    assert(self.history() =~= old_history.map_values(|t: Transaction| t@));
                },
            }
        }
        outcome
    }

    /// Whether some transaction on record claims `id`.
    fn any_claim(&self, id: &Bytes) -> (r: bool)
        ensures
            r == claimed(self.history(), id@),
    {
        let mut i: usize = 0;
        while i < self.history.len()
            invariant
                i <= self.history@.len(),
                forall|j: int| 0 <= j < i ==> (#[trigger] self.history@[j])@.identity != id@,
            decreases self.history@.len() - i,
        {
            if self.history[i].identity.same(id) {
                assert(self.history()[i as int].identity == id@);
                return true;
            }
            i = i + 1;
        }
        assert forall|j: int| 0 <= j < self.history().len() implies self.history()[j].identity
            != id@ by {
            assert(self.history()[j] == self.history@[j]@);
        }
        false
    }

    /// Whether some transaction on record claims `id` under a key other than `key`.
    fn any_claim_by_other(&self, id: &Bytes, key: &Bytes) -> (r: bool)
        ensures
            r == claimed_by_other(self.history(), id@, key@),
    {
        let mut i: usize = 0;
        while i < self.history.len()
            invariant
                i <= self.history@.len(),
                forall|j: int|
                    0 <= j < i ==> !((#[trigger] self.history@[j])@.identity == id@
                        && self.history@[j]@.pub_key != key@),
            decreases self.history@.len() - i,
        {
            let t = &self.history[i];
            if t.identity.same(id) && !t.pub_key.same(key) {
                assert(self.history()[i as int] == t@);
                return true;
            }
            i = i + 1;
        }
        assert forall|j: int| 0 <= j < self.history().len() implies !(self.history()[j].identity
            == id@ && self.history()[j].pub_key != key@) by {
            assert(self.history()[j] == self.history@[j]@);
        }
        false
    }

    /// Whether the holder of `claimant` may claim `domain`: the name is not
    /// empty, nobody else has claimed it, and it is either a bare name or
    /// `local.zone` where `zone` has been claimed by anyone.
    pub fn is_domain_available(&self, domain: &str, claimant: &Bytes) -> (r: bool)
        ensures
            r == domain_available(encode_utf8(domain@), claimant@, self.history()),
    {
        let name = domain.as_bytes();
        let ghost n = name@;
        let name_id = Transaction::hash_identity(domain);
        let first_dot = find_dot(name, 0);
        let zone_id = match first_dot {
            Some(k) => {
                let zone = bytes_after(name, k);
                sha256(zone.as_slice())
            },
            // A bare name has no zone; the value is not looked at.
            None => name_id.duplicate(),
        };
        let r = self.is_available_given(name, &name_id, &zone_id, claimant);
        proof {
            if let Some(k) = first_dot {
                assert forall|j: int| single_dot_at(n, j) implies j == k by {
                    if j < k {
                        assert(n[k as int] != DOT);
                    } else if j > k {
                        assert(n[k as int] != DOT);
                    }
                }
            }
        }
        r
    }

    /// The decision of `is_domain_available` once the name's identity and its
    /// zone's identity are known.
    pub fn is_available_given(
        &self,
        name: &[u8],
        name_id: &Bytes,
        zone_id: &Bytes,
        claimant: &Bytes,
    ) -> (r: bool)
        ensures
            r == available_given(name@, name_id@, zone_id@, claimant@, self.history()),
    {
        if name.len() == 0 {
            return false;
        }
        if self.any_claim_by_other(name_id, claimant) {
            return false;
        }
        let ghost n = name@;
        match find_dot(name, 0) {
            None => true,
            Some(k) => {
                match find_dot(name, k + 1) {
                    Some(k2) => {
                        proof {
                            assert(n[k as int] == DOT);
                            assert forall|j: int| !single_dot_at(n, j) by {
                                if single_dot_at(n, j) {
                                    if j < k {
                                        assert(n[k as int] != DOT);
                                    } else if j > k {
                                        assert(n[k as int] != DOT);
                                    } else {
                                        assert(n[k2 as int] != DOT);
                                    }
                                }
                            }
                        }
                        false
                    },
                    None => {
                        assert(single_dot_at(n, k as int));
                        self.any_claim(zone_id)
                    },
                }
            },
        }
    }
}

/// Position of the first separator in `s[from..]`, if any.
fn find_dot(s: &[u8], from: usize) -> (r: Option<usize>)
    requires
        from <= s@.len(),
    ensures
        match r {
            None => no_dot(s@, from as int, s@.len() as int),
            Some(k) => from <= k < s@.len() && s@[k as int] == DOT && no_dot(s@, from as int, k as int),
        },
{
    let mut i: usize = from;
    while i < s.len()
        invariant
            from <= i <= s@.len(),
            no_dot(s@, from as int, i as int),
        decreases s@.len() - i,
    {
        if s[i] == DOT {
            return Some(i);
        }
        i = i + 1;
    }
    None
}

/// The bytes of `s` after position `k`.
fn bytes_after(s: &[u8], k: usize) -> (r: Vec<u8>)
    requires
        k < s@.len(),
    ensures
        r@ == s@.subrange(k + 1, s@.len() as int),
{
    let n = s.len();
    let mut out: Vec<u8> = Vec::new();
    let mut i: usize = k + 1;
    while i < n
        invariant
            k + 1 <= i <= n,
            n == s@.len(),
            out@ == s@.subrange(k + 1, i as int),
        decreases n - i,
    {
        out.push(s[i]);
        i = i + 1;
        assert(out@ =~= s@.subrange(k + 1, i as int));
    }
    out
}

} // verus!
