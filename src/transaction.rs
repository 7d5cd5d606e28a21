use vstd::prelude::*;
use vstd::utf8::encode_utf8;
use crate::bytes::{Bytes, zeros};
use crate::codec::{
    enc_bytes,
    enc_text,
    fits,
    lemma_enc_bytes_prefix,
    lemma_enc_text_prefix,
    put_bytes,
    put_text,
};
use crate::hashing::{sha256, sha256_of};

verus! {

/// A claim on a name: the hash of the name, an operation tag, an opaque
/// payload, the claimant's public key and the claimant's signature.
#[derive(Clone, Debug, PartialEq, Eq)]
pub struct Transaction {
    pub identity: Bytes,
    pub method: String,
    pub data: String,
    pub pub_key: Bytes,
    pub signature: Bytes,
}

/// What a transaction holds, as plain values.
pub struct TransactionModel {
    pub identity: Seq<u8>,
    pub method: Seq<char>,
    pub data: Seq<char>,
    pub pub_key: Seq<u8>,
    pub signature: Seq<u8>,
}

impl View for Transaction {
    type V = TransactionModel;

    open spec fn view(&self) -> TransactionModel {
        TransactionModel {
            identity: self.identity@,
            method: self.method@,
            data: self.data@,
            pub_key: self.pub_key@,
            signature: self.signature@,
        }
    }
}

/// The identity of a human-readable name: the SHA-256 digest of its UTF-8 bytes.
pub open spec fn identity_of(name: Seq<char>) -> Seq<u8> {
    sha256_of(encode_utf8(name))
}

/// Canonical encoding of a transaction.
pub open spec fn enc_transaction(t: TransactionModel) -> Seq<u8> {
    enc_bytes(t.identity) + enc_text(t.method) + enc_text(t.data) + enc_bytes(t.pub_key)
        + enc_bytes(t.signature)
}

/// Every part of the transaction has a length that fits in 64 bits.
pub open spec fn transaction_fits(t: TransactionModel) -> bool {
    &&& fits(t.identity)
    &&& fits(encode_utf8(t.method))
    &&& fits(encode_utf8(t.data))
    &&& fits(t.pub_key)
    &&& fits(t.signature)
}

/// A transaction can be read back off the front of any stream.
pub proof fn lemma_enc_transaction_prefix(
    t1: TransactionModel,
    r1: Seq<u8>,
    t2: TransactionModel,
    r2: Seq<u8>,
)
    requires
        transaction_fits(t1),
        transaction_fits(t2),
        enc_transaction(t1) + r1 == enc_transaction(t2) + r2,
    ensures
        t1 == t2,
        r1 == r2,
{
    let s1 = enc_bytes(t1.signature) + r1;
    let s2 = enc_bytes(t2.signature) + r2;
    let p1 = enc_bytes(t1.pub_key) + s1;
    let p2 = enc_bytes(t2.pub_key) + s2;
    let d1 = enc_text(t1.data) + p1;
    let d2 = enc_text(t2.data) + p2;
    let m1 = enc_text(t1.method) + d1;
    let m2 = enc_text(t2.method) + d2;
    assert(enc_transaction(t1) + r1 =~= enc_bytes(t1.identity) + m1);
    assert(enc_transaction(t2) + r2 =~= enc_bytes(t2.identity) + m2);
    lemma_enc_bytes_prefix(t1.identity, m1, t2.identity, m2);
    lemma_enc_text_prefix(t1.method, d1, t2.method, d2);
    lemma_enc_text_prefix(t1.data, p1, t2.data, p2);
    lemma_enc_bytes_prefix(t1.pub_key, s1, t2.pub_key, s2);
    lemma_enc_bytes_prefix(t1.signature, r1, t2.signature, r2);
}

impl Transaction {
    /// A transaction claiming the name `identity`, which is stored hashed.
    pub fn from_str(identity: String, method: String, data: String, pub_key: Bytes) -> (r: Self)
        ensures
            r@.identity == identity_of(identity@),
            r@.method == method@,
            r@.data == data@,
            r@.pub_key == pub_key@,
            r@.signature == zeros(64),
    {
        let bytes = Self::hash_identity(identity.as_str());
        Self::new(bytes, method, data, pub_key)
    }

    /// A transaction over an already hashed identity, with an empty (all-zero)
    /// signature.
    pub fn new(identity: Bytes, method: String, data: String, pub_key: Bytes) -> (r: Self)
        ensures
            r@.identity == identity@,
            r@.method == method@,
            r@.data == data@,
            r@.pub_key == pub_key@,
            r@.signature == zeros(64),
    {
        Transaction { identity, method, data, pub_key, signature: Bytes::zero64() }
    }

    pub fn set_signature(&mut self, hash: Bytes)
        ensures
            final(self)@ == (TransactionModel { signature: hash@, ..old(self)@ }),
    {
        self.signature = hash;
    }

    /// The identity of a name: the SHA-256 digest of its UTF-8 bytes.
    pub fn hash_identity(identity: &str) -> (r: Bytes)
        ensures
            r@ == identity_of(identity@),
            r@.len() == 32,
    {
        sha256(identity.as_bytes())
    }

    /// An independent copy with the same contents.
    pub fn duplicate(&self) -> (r: Self)
        ensures
            r@ == self@,
    {
        Transaction {
            identity: self.identity.duplicate(),
            method: self.method.clone(),
            data: self.data.clone(),
            pub_key: self.pub_key.duplicate(),
            signature: self.signature.duplicate(),
        }
    }

    /// Appends the canonical encoding of this transaction.
    pub fn encode_into(&self, out: &mut Vec<u8>)
        ensures
            final(out)@ == old(out)@ + enc_transaction(self@),
    {
        put_bytes(out, self.identity.as_bytes());
        put_text(out, self.method.as_str());
        put_text(out, self.data.as_str());
        put_bytes(out, self.pub_key.as_bytes());
        put_bytes(out, self.signature.as_bytes());
        assert(final(out)@ =~= old(out)@ + enc_transaction(self@));
    }
}

} // verus!
