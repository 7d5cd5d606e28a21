use vstd::prelude::*;
use crate::bytes::{Bytes, zeros};
use crate::codec::{
    enc_bytes,
    enc_text,
    enc_u64,
    fits,
    lemma_enc_bytes_prefix,
    lemma_enc_text_prefix,
    lemma_enc_u64_prefix,
    put_bytes,
    put_text,
    put_u64,
};
use crate::hashing::{sha256, sha256_of};
use crate::transaction::{
    Transaction,
    TransactionModel,
    enc_transaction,
    lemma_enc_transaction_prefix,
    transaction_fits,
};
use vstd::utf8::encode_utf8;

verus! {


/// A chain element. `hash` is the digest of the block's canonical encoding
/// taken with `hash` itself set to the zero hash; `prev_block_hash` is the
/// `hash` of the block before it.
#[derive(Clone, Debug, PartialEq, Eq)]
pub struct Block {
    pub index: u64,
    pub timestamp: i64,
    pub chain_name: String,
    pub version_flags: u32,
    pub difficulty: usize,
    pub random: u32,
    pub nonce: u64,
    pub transaction: Option<Transaction>,
    pub prev_block_hash: Bytes,
    pub hash: Bytes,
}

/// What a block holds, as plain values.
pub struct BlockModel {
    pub index: u64,
    pub timestamp: i64,
    pub chain_name: Seq<char>,
    pub version_flags: u32,
    pub difficulty: usize,
    pub random: u32,
    pub nonce: u64,
    pub transaction: Option<TransactionModel>,
    pub prev_block_hash: Seq<u8>,
    pub hash: Seq<u8>,
}

pub open spec fn transaction_view(t: Option<Transaction>) -> Option<TransactionModel> {
    match t {
        Some(t) => Some(t@),
        None => None,
    }
}

impl View for Block {
    type V = BlockModel;

    open spec fn view(&self) -> BlockModel {
        BlockModel {
            index: self.index,
            timestamp: self.timestamp,
            chain_name: self.chain_name@,
            version_flags: self.version_flags,
            difficulty: self.difficulty,
            random: self.random,
            nonce: self.nonce,
            transaction: transaction_view(self.transaction),
            prev_block_hash: self.prev_block_hash@,
            hash: self.hash@,
        }
    }
}

/// Encoding of the optional transaction: a 0 byte when absent, else a 1 byte
/// and the transaction.
pub open spec fn enc_opt_transaction(t: Option<TransactionModel>) -> Seq<u8> {
    match t {
        Some(t) => seq![1u8] + enc_transaction(t),
        None => seq![0u8],
    }
}

/// Canonical encoding of a block, every field in declaration order.
pub open spec fn enc_block(b: BlockModel) -> Seq<u8> {
    enc_u64(b.index) + enc_u64(b.timestamp as u64) + enc_text(b.chain_name) + enc_u64(
        b.version_flags as u64,
    ) + enc_u64(b.difficulty as u64) + enc_u64(b.random as u64) + enc_u64(b.nonce)
        + enc_opt_transaction(b.transaction) + enc_bytes(b.prev_block_hash) + enc_bytes(b.hash)
}

/// The block with its `hash` field reset to the zero hash.
pub open spec fn unhashed(b: BlockModel) -> BlockModel {
    BlockModel { hash: zeros(32), ..b }
}

/// The hash that a block must carry: the digest of its encoding with `hash`
/// reset to the zero hash.
pub open spec fn content_hash(b: BlockModel) -> Seq<u8> {
    sha256_of(enc_block(unhashed(b)))
}

/// The block's `hash` field is its content hash.
pub open spec fn hash_ok(b: BlockModel) -> bool {
    b.hash == content_hash(b)
}

/// Every part of the block has a length that fits in 64 bits.
pub open spec fn block_fits(b: BlockModel) -> bool {
    &&& fits(encode_utf8(b.chain_name))
    &&& fits(b.prev_block_hash)
    &&& fits(b.hash)
    &&& b.transaction is Some ==> transaction_fits(b.transaction->Some_0)
}

/// The optional transaction can be read back off the front of any stream.
proof fn lemma_enc_opt_transaction_prefix(
    t1: Option<TransactionModel>,
    r1: Seq<u8>,
    t2: Option<TransactionModel>,
    r2: Seq<u8>,
)
    requires
        t1 is Some ==> transaction_fits(t1->Some_0),
        t2 is Some ==> transaction_fits(t2->Some_0),
        enc_opt_transaction(t1) + r1 == enc_opt_transaction(t2) + r2,
    ensures
        t1 == t2,
        r1 == r2,
{
    assert((enc_opt_transaction(t1) + r1)[0] == enc_opt_transaction(t1)[0]);
    assert((enc_opt_transaction(t2) + r2)[0] == enc_opt_transaction(t2)[0]);
    match (t1, t2) {
        (Some(a), Some(b)) => {
            assert(enc_opt_transaction(t1) + r1 =~= seq![1u8] + (enc_transaction(a) + r1));
            assert(enc_opt_transaction(t2) + r2 =~= seq![1u8] + (enc_transaction(b) + r2));
            assert(enc_transaction(a) + r1 =~= (enc_opt_transaction(t1) + r1).drop_first());
            assert(enc_transaction(b) + r2 =~= (enc_opt_transaction(t2) + r2).drop_first());
            lemma_enc_transaction_prefix(a, r1, b, r2);
        },
        (None, None) => {
            assert(r1 =~= (enc_opt_transaction(t1) + r1).drop_first());
            assert(r2 =~= (enc_opt_transaction(t2) + r2).drop_first());
        },
        _ => {},
    }
}

/// The encoding of a block, grouped from the right.
proof fn lemma_enc_block_nested(b: BlockModel)
    ensures
        enc_block(b) == enc_u64(b.index) + (enc_u64(b.timestamp as u64) + (enc_text(b.chain_name) + (
        enc_u64(b.version_flags as u64) + (enc_u64(b.difficulty as u64) + (enc_u64(b.random as u64)
            + (enc_u64(b.nonce) + (enc_opt_transaction(b.transaction) + (enc_bytes(
            b.prev_block_hash,
        ) + enc_bytes(b.hash))))))))),
{
    let e1 = enc_u64(b.index);
    let e2 = enc_u64(b.timestamp as u64);
    let e3 = enc_text(b.chain_name);
    let e4 = enc_u64(b.version_flags as u64);
    let e5 = enc_u64(b.difficulty as u64);
    let e6 = enc_u64(b.random as u64);
    let e7 = enc_u64(b.nonce);
    let e8 = enc_opt_transaction(b.transaction);
    let e9 = enc_bytes(b.prev_block_hash);
    let e10 = enc_bytes(b.hash);
    let r9 = e9 + e10;
    let r8 = e8 + r9;
    let r7 = e7 + r8;
    let r6 = e6 + r7;
    let r5 = e5 + r6;
    let r4 = e4 + r5;
    let r3 = e3 + r4;
    let r2 = e2 + r3;
    let l2 = e1 + e2;
    let l3 = l2 + e3;
    let l4 = l3 + e4;
    let l5 = l4 + e5;
    let l6 = l5 + e6;
    let l7 = l6 + e7;
    let l8 = l7 + e8;
    let l9 = l8 + e9;
    assert(enc_block(b) == l9 + e10);
    assert(l9 + e10 =~= l8 + r9);
    assert(l8 + r9 =~= l7 + r8);
    assert(l7 + r8 =~= l6 + r7);
    assert(l6 + r7 =~= l5 + r6);
    assert(l5 + r6 =~= l4 + r5);
    assert(l4 + r5 =~= l3 + r4);
    assert(l3 + r4 =~= l2 + r3);
    assert(l2 + r3 =~= e1 + r2);
}

/// Blocks that differ in any field have different encodings.
pub proof fn lemma_enc_block_injective(a: BlockModel, b: BlockModel)
    requires
        block_fits(a),
        block_fits(b),
        enc_block(a) == enc_block(b),
    ensures
        a == b,
{
    let h1 = enc_bytes(a.prev_block_hash) + enc_bytes(a.hash);
    let h2 = enc_bytes(b.prev_block_hash) + enc_bytes(b.hash);
    let t1 = enc_opt_transaction(a.transaction) + h1;
    let t2 = enc_opt_transaction(b.transaction) + h2;
    let n1 = enc_u64(a.nonce) + t1;
    let n2 = enc_u64(b.nonce) + t2;
    let q1 = enc_u64(a.random as u64) + n1;
    let q2 = enc_u64(b.random as u64) + n2;
    let d1 = enc_u64(a.difficulty as u64) + q1;
    let d2 = enc_u64(b.difficulty as u64) + q2;
    let v1 = enc_u64(a.version_flags as u64) + d1;
    let v2 = enc_u64(b.version_flags as u64) + d2;
    let c1 = enc_text(a.chain_name) + v1;
    let c2 = enc_text(b.chain_name) + v2;
    let s1 = enc_u64(a.timestamp as u64) + c1;
    let s2 = enc_u64(b.timestamp as u64) + c2;
    lemma_enc_block_nested(a);
    lemma_enc_block_nested(b);
    lemma_enc_u64_prefix(a.index, s1, b.index, s2);
    lemma_enc_u64_prefix(a.timestamp as u64, c1, b.timestamp as u64, c2);
    lemma_enc_text_prefix(a.chain_name, v1, b.chain_name, v2);
    lemma_enc_u64_prefix(a.version_flags as u64, d1, b.version_flags as u64, d2);
    lemma_enc_u64_prefix(a.difficulty as u64, q1, b.difficulty as u64, q2);
    lemma_enc_u64_prefix(a.random as u64, n1, b.random as u64, n2);
    lemma_enc_u64_prefix(a.nonce, t1, b.nonce, t2);
    lemma_enc_opt_transaction_prefix(a.transaction, h1, b.transaction, h2);
    lemma_enc_bytes_prefix(
        a.prev_block_hash,
        enc_bytes(a.hash),
        b.prev_block_hash,
        enc_bytes(b.hash),
    );
    assert(enc_bytes(a.hash) =~= enc_bytes(a.hash) + Seq::<u8>::empty());
    assert(enc_bytes(b.hash) =~= enc_bytes(b.hash) + Seq::<u8>::empty());
    lemma_enc_bytes_prefix(a.hash, Seq::empty(), b.hash, Seq::empty());
    let x = a.timestamp;
    let y = b.timestamp;
    assert(x as u64 == y as u64 ==> x == y) by (bit_vector);
}

/// Changing any field of a block that carries its content hash, while
/// keeping the hash, leaves a block that carries its content hash only if
/// SHA-256 maps two different byte strings to one digest.
pub proof fn lemma_field_change_needs_collision(a: BlockModel, b: BlockModel)
    requires
        block_fits(a),
        block_fits(b),
        hash_ok(a),
        b != a,
        b.hash == a.hash,
        hash_ok(b),
    ensures
        enc_block(unhashed(a)) != enc_block(unhashed(b)),
        sha256_of(enc_block(unhashed(a))) == sha256_of(enc_block(unhashed(b))),
{
    if enc_block(unhashed(a)) == enc_block(unhashed(b)) {
        lemma_enc_block_injective(unhashed(a), unhashed(b));
        assert(a == b);
    }
}

/// Changing the hash of a block that carries its content hash, and nothing
/// else, always leaves a block that does not.
pub proof fn lemma_hash_change_detected(a: BlockModel, b: BlockModel)
    requires
        hash_ok(a),
        unhashed(b) == unhashed(a),
        b.hash != a.hash,
    ensures
        !hash_ok(b),
{
}

impl Block {
    pub fn from_all_params(
        index: u64,
        timestamp: i64,
        chain_name: &str,
        version_flags: u32,
        difficulty: usize,
        random: u32,
        nonce: u64,
        prev_block_hash: Bytes,
        hash: Bytes,
        transaction: Option<Transaction>,
    ) -> (r: Block)
        ensures
            r@ == (BlockModel {
                index,
                timestamp,
                chain_name: chain_name@,
                version_flags,
                difficulty,
                random,
                nonce,
                transaction: transaction_view(transaction),
                prev_block_hash: prev_block_hash@,
                hash: hash@,
            }),
    {
        Block {
            index,
            timestamp,
            chain_name: chain_name.to_owned(),
            version_flags,
            difficulty,
            random,
            nonce,
            transaction,
            prev_block_hash,
            hash,
        }
    }

    /// A block over the given fields whose `hash` is set to its content hash.
    pub fn new(
        index: u64,
        timestamp: i64,
        chain_name: &str,
        version_flags: u32,
        difficulty: usize,
        random: u32,
        nonce: u64,
        prev_block_hash: Bytes,
        transaction: Option<Transaction>,
    ) -> (r: Block)
        ensures
            r@ == (BlockModel {
                index,
                timestamp,
                chain_name: chain_name@,
                version_flags,
                difficulty,
                random,
                nonce,
                transaction: transaction_view(transaction),
                prev_block_hash: prev_block_hash@,
                hash: r@.hash,
            }),
            hash_ok(r@),
    {
        let mut block = Block::from_all_params(
            index,
            timestamp,
            chain_name,
            version_flags,
            difficulty,
            random,
            nonce,
            prev_block_hash,
            Bytes::zero32(),
            transaction,
        );
        let h = block.recompute_hash();
        let ghost before = block@;
        block.hash = h;
        assert(unhashed(block@) == unhashed(before));
        block
    }

    /// The digest used for block hashes (SHA-256).
    pub fn hash(data: &[u8]) -> (r: Bytes)
        ensures
            r@ == sha256_of(data@),
            r@.len() == 32,
    {
        sha256(data)
    }

    /// Appends the encoding of the optional transaction.
    fn encode_transaction_into(&self, out: &mut Vec<u8>)
        ensures
            final(out)@ == old(out)@ + enc_opt_transaction(self@.transaction),
    {
        match &self.transaction {
            None => {
                out.push(0u8);
                assert(final(out)@ =~= old(out)@ + seq![0u8]);
            },
            Some(t) => {
                out.push(1u8);
                t.encode_into(out);
                assert(final(out)@ =~= old(out)@ + (seq![1u8] + enc_transaction(t@)));
            },
        }
    }

    /// Appends every field but `hash`, in encoding order.
    fn encode_head_into(&self, out: &mut Vec<u8>)
        ensures
            final(out)@ == old(out)@ + enc_u64(self.index) + enc_u64(self.timestamp as u64)
                + enc_text(self.chain_name@) + enc_u64(self.version_flags as u64) + enc_u64(
                self.difficulty as u64,
            ) + enc_u64(self.random as u64) + enc_u64(self.nonce) + enc_opt_transaction(
                self@.transaction,
            ) + enc_bytes(self.prev_block_hash@),
    {
        put_u64(out, self.index);
        put_u64(out, self.timestamp as u64);
        put_text(out, self.chain_name.as_str());
        put_u64(out, self.version_flags as u64);
        put_u64(out, self.difficulty as u64);
        put_u64(out, self.random as u64);
        put_u64(out, self.nonce);
        self.encode_transaction_into(out);
        put_bytes(out, self.prev_block_hash.as_bytes());
    }

    /// The canonical encoding of this block.
    pub fn encoding(&self) -> (r: Vec<u8>)
        ensures
            r@ == enc_block(self@),
    {
        let mut out: Vec<u8> = Vec::new();
        self.encode_head_into(&mut out);
        put_bytes(&mut out, self.hash.as_bytes());
        assert(out@ =~= enc_block(self@));
        out
    }

    /// The hash this block should carry: the digest of its encoding with
    /// `hash` reset to the zero hash.
    pub fn recompute_hash(&self) -> (r: Bytes)
        ensures
            r@ == content_hash(self@),
            r@.len() == 32,
    {
        let mut out: Vec<u8> = Vec::new();
        self.encode_head_into(&mut out);
        let zero = Bytes::zero32();
        put_bytes(&mut out, zero.as_bytes());
        assert(out@ =~= enc_block(unhashed(self@)));
        Block::hash(out.as_slice())
    }

    /// An independent copy with the same contents.
    pub fn duplicate(&self) -> (r: Block)
        ensures
            r@ == self@,
    {
        let transaction = match &self.transaction {
            Some(t) => Some(t.duplicate()),
            None => None,
        };
        Block {
            index: self.index,
            timestamp: self.timestamp,
            chain_name: self.chain_name.clone(),
            version_flags: self.version_flags,
            difficulty: self.difficulty,
            random: self.random,
            nonce: self.nonce,
            transaction,
            prev_block_hash: self.prev_block_hash.duplicate(),
            hash: self.hash.duplicate(),
        }
    }
}

} // verus!
