//! Properties of the ledger that hold across calls.
use vstd::prelude::*;
use crate::block::hash_ok;
use crate::blockchain::{
    Blockchain,
    DOT,
    claimed,
    claimed_by_other,
    domain_available,
    no_dot,
    single_dot_at,
};
use crate::hashing::sha256_of;
use crate::transaction::TransactionModel;

verus! {

/// Every block the ledger has accepted carries its content hash.
pub proof fn lemma_accepted_blocks_carry_their_hash(chain: &Blockchain, i: int)
    requires
        chain.wf(),
        0 <= i < chain.blocks_view().len(),
    ensures
        hash_ok(chain.blocks_view()[i]),
{
    assert(chain.blocks_view()[i] == chain.blocks@[i]@);
}

/// Each accepted block links to the block accepted just before it.
pub proof fn lemma_adjacent_blocks_are_linked(chain: &Blockchain, i: int)
    requires
        chain.wf(),
        0 < i < chain.blocks_view().len(),
    ensures
        chain.blocks_view()[i].prev_block_hash == chain.blocks_view()[i - 1].hash,
{
    assert(chain.blocks_view()[i] == chain.blocks@[i]@);
    assert(chain.blocks_view()[i - 1] == chain.blocks@[i - 1]@);
}

/// The empty name is never available.
pub proof fn lemma_empty_name_unavailable(key: Seq<u8>, h: Seq<TransactionModel>)
    ensures
        !domain_available(Seq::empty(), key, h),
{
}

/// Once a name is claimed, nobody with another key may claim it.
pub proof fn lemma_claim_excludes_other_keys(
    name: Seq<u8>,
    h: Seq<TransactionModel>,
    t: TransactionModel,
    other: Seq<u8>,
)
    requires
        t.identity == sha256_of(name),
        other != t.pub_key,
    ensures
        !domain_available(name, other, h.push(t)),
{
    assert(h.push(t)[h.len() as int] == t);
}

/// The owner of a name may claim it again.
pub proof fn lemma_owner_may_claim_again(name: Seq<u8>, h: Seq<TransactionModel>, t: TransactionModel)
    requires
        domain_available(name, t.pub_key, h),
        t.identity == sha256_of(name),
    ensures
        domain_available(name, t.pub_key, h.push(t)),
{
    let h2 = h.push(t);
    assert forall|i: int| 0 <= i < h2.len() implies !(h2[i].identity == sha256_of(name)
        && h2[i].pub_key != t.pub_key) by {
        if i < h.len() {
            assert(h2[i] == h[i]);
        }
    }
    if !no_dot(name, 0, name.len() as int) {
        let k = choose|k: int|
            single_dot_at(name, k) && claimed(h, sha256_of(name.subrange(k + 1, name.len() as int)));
        let j = choose|j: int|
            0 <= j < h.len() && h[j].identity == sha256_of(name.subrange(k + 1, name.len() as int));
        assert(h2[j] == h[j]);
        assert(claimed(h2, sha256_of(name.subrange(k + 1, name.len() as int))));
    }
}

/// A name under a zone is unavailable while nobody has claimed the zone.
pub proof fn lemma_zone_must_be_claimed_first(
    name: Seq<u8>,
    k: int,
    key: Seq<u8>,
    h: Seq<TransactionModel>,
)
    requires
        single_dot_at(name, k),
        !claimed(h, sha256_of(name.subrange(k + 1, name.len() as int))),
    ensures
        !domain_available(name, key, h),
{
    assert forall|j: int| single_dot_at(name, j) implies j == k by {
        if j < k {
            assert(name[k] != DOT);
        } else if j > k {
            assert(name[k] != DOT);
        }
    }
}

/// Once a zone is claimed, a name under it is available to any key, as long
/// as nobody else has claimed that name itself.
pub proof fn lemma_zone_claim_opens_names_under_it(
    name: Seq<u8>,
    k: int,
    key: Seq<u8>,
    h: Seq<TransactionModel>,
    t: TransactionModel,
)
    requires
        single_dot_at(name, k),
        t.identity == sha256_of(name.subrange(k + 1, name.len() as int)),
        !claimed_by_other(h.push(t), sha256_of(name), key),
    ensures
        domain_available(name, key, h.push(t)),
{
    assert(h.push(t)[h.len() as int] == t);
    assert(claimed(h.push(t), sha256_of(name.subrange(k + 1, name.len() as int))));
}

/// A name with two or more separators is never available.
pub proof fn lemma_three_level_names_unavailable(
    name: Seq<u8>,
    i: int,
    j: int,
    key: Seq<u8>,
    h: Seq<TransactionModel>,
)
    requires
        0 <= i < j < name.len(),
        name[i] == DOT,
        name[j] == DOT,
    ensures
        !domain_available(name, key, h),
{
    assert forall|k: int| !single_dot_at(name, k) by {
        if single_dot_at(name, k) {
            if k < i {
                assert(name[i] != DOT);
            } else if k > i {
                assert(name[i] != DOT);
            } else {
                assert(name[j] != DOT);
            }
        }
    }
}

} // verus!
