use ledger::{AppendOutcome, Block, Blockchain, Bytes, Transaction};

fn key(b: u8) -> Bytes {
    Bytes::from_bytes(&[b; 32])
}

fn claim(name: &str, owner: &Bytes) -> Transaction {
    Transaction::from_str(name.to_string(), "register".to_string(), "payload".to_string(), owner.clone())
}

fn next_block(chain: &Blockchain, transaction: Option<Transaction>) -> Block {
    let (index, prev) = match chain.get_last_block() {
        Some(tip) => (tip.index + 1, tip.hash.clone()),
        None => (0, Bytes::zero32()),
    };
    Block::new(index, 1_600_000_000 + index as i64, "testnet", 7, 3, 11, 42, prev, transaction)
}

fn hex(b: &Bytes) -> String {
    b.as_bytes().iter().map(|x| format!("{:02x}", x)).collect()
}

#[test]
fn identity_is_sha256_of_name() {
    let h = Transaction::hash_identity("abc");
    assert_eq!(hex(&h), "ba7816bf8f01cfea414140de5dae2223b00361a396177a9cb410ff61f20015ad");
    let t = claim("abc", &key(1));
    assert_eq!(t.identity, h);
    assert_eq!(t.signature, Bytes::zero(64));
    assert_eq!(t.method, "register");
    assert_eq!(t.data, "payload");
    assert_eq!(t.pub_key, key(1));
}

#[test]
fn set_signature_replaces_only_signature() {
    let mut t = claim("abc", &key(1));
    let before = t.clone();
    t.set_signature(key(9));
    assert_eq!(t.signature, key(9));
    assert_eq!(t.identity, before.identity);
    assert_eq!(t.pub_key, before.pub_key);
}

#[test]
fn bytes_basics() {
    assert_eq!(Bytes::zero32().len(), 32);
    assert_eq!(Bytes::zero64().len(), 64);
    assert_eq!(Bytes::default(), Bytes::zero32());
    assert!(key(3).same(&key(3)));
    assert!(!key(3).same(&key(4)));
    assert!(!Bytes::from_bytes(&[1, 2]).same(&Bytes::from_bytes(&[1, 2, 3])));
    assert_eq!(key(5).duplicate(), key(5));
}

#[test]
fn encoding_layout() {
    let b = Block::from_all_params(1, 2, "ab", 3, 4, 5, 6, Bytes::from_bytes(&[9]), Bytes::from_bytes(&[8, 7]), None);
    let e = b.encoding();
    let mut expected: Vec<u8> = Vec::new();
    expected.extend_from_slice(&[1, 0, 0, 0, 0, 0, 0, 0]);
    expected.extend_from_slice(&[2, 0, 0, 0, 0, 0, 0, 0]);
    expected.extend_from_slice(&[2, 0, 0, 0, 0, 0, 0, 0, b'a', b'b']);
    expected.extend_from_slice(&[3, 0, 0, 0, 0, 0, 0, 0]);
    expected.extend_from_slice(&[4, 0, 0, 0, 0, 0, 0, 0]);
    expected.extend_from_slice(&[5, 0, 0, 0, 0, 0, 0, 0]);
    expected.extend_from_slice(&[6, 0, 0, 0, 0, 0, 0, 0]);
    expected.push(0);
    expected.extend_from_slice(&[1, 0, 0, 0, 0, 0, 0, 0, 9]);
    expected.extend_from_slice(&[2, 0, 0, 0, 0, 0, 0, 0, 8, 7]);
    assert_eq!(e, expected);
}

#[test]
fn new_block_carries_its_hash() {
    let chain = Blockchain::new("testnet", 7);
    let b = next_block(&chain, Some(claim("alice", &key(1))));
    assert!(Blockchain::check_block_hash(&b));
    assert_eq!(b.recompute_hash(), b.hash);
    assert_eq!(b.hash.len(), 32);
    let mut zeroed = b.clone();
    zeroed.hash = Bytes::zero32();
    assert_eq!(Block::hash(&zeroed.encoding()), b.hash);
}

#[test]
fn corrupting_any_field_breaks_the_hash() {
    let chain = Blockchain::new("testnet", 7);
    let b = next_block(&chain, Some(claim("alice", &key(1))));
    let mut variants: Vec<Block> = Vec::new();
    let mut x = b.clone(); x.index += 1; variants.push(x);
    let mut x = b.clone(); x.timestamp -= 1; variants.push(x);
    let mut x = b.clone(); x.chain_name.push('x'); variants.push(x);
    let mut x = b.clone(); x.version_flags ^= 1; variants.push(x);
    let mut x = b.clone(); x.difficulty += 1; variants.push(x);
    let mut x = b.clone(); x.random += 1; variants.push(x);
    let mut x = b.clone(); x.nonce += 1; variants.push(x);
    let mut x = b.clone(); x.transaction = None; variants.push(x);
    let mut x = b.clone(); x.prev_block_hash = key(2); variants.push(x);
    let mut x = b.clone(); x.hash = key(2); variants.push(x);
    for v in variants.iter() {
        assert!(!Blockchain::check_block_hash(v));
    }
}

#[test]
fn genesis_accepted_whatever_prev_hash() {
    let mut chain = Blockchain::new("testnet", 7);
    let b = Block::new(0, 5, "testnet", 7, 1, 2, 3, key(0xee), None);
    assert_eq!(chain.add_block(b.clone()), AppendOutcome::Accepted);
    assert_eq!(chain.blocks.len(), 1);
    assert_eq!(chain.get_last_block(), Some(b));
}

#[test]
fn bad_hash_rejected() {
    let mut chain = Blockchain::new("testnet", 7);
    let mut b = next_block(&chain, None);
    b.nonce += 1;
    assert_eq!(chain.add_block(b), AppendOutcome::RejectedHashMismatch);
    assert_eq!(chain.blocks.len(), 0);
    assert_eq!(chain.get_last_block(), None);
}

#[test]
fn broken_link_rejected_and_chain_unchanged() {
    let mut chain = Blockchain::new("testnet", 7);
    let g = next_block(&chain, None);
    assert_eq!(chain.add_block(g.clone()), AppendOutcome::Accepted);
    let bad = Block::new(1, 9, "testnet", 7, 3, 11, 42, key(0x55), Some(claim("bob", &key(2))));
    assert_eq!(chain.add_block(bad), AppendOutcome::RejectedLinkageMismatch);
    assert_eq!(chain.blocks.len(), 1);
    assert_eq!(chain.history.len(), 0);
    assert_eq!(chain.get_last_block(), Some(g));
    assert!(chain.is_domain_available("bob", &key(3)));
}

#[test]
fn accepted_blocks_are_linked() {
    let mut chain = Blockchain::new("testnet", 7);
    for i in 0..4u8 {
        let t = if i % 2 == 0 { Some(claim(&format!("n{}", i), &key(i))) } else { None };
        let b = next_block(&chain, t);
        assert_eq!(chain.add_block(b), AppendOutcome::Accepted);
    }
    assert_eq!(chain.blocks.len(), 4);
    assert_eq!(chain.history.len(), 2);
    for i in 1..chain.blocks.len() {
        assert_eq!(chain.blocks[i].prev_block_hash, chain.blocks[i - 1].hash);
        assert!(Blockchain::check_block_hash(&chain.blocks[i]));
    }
    assert_eq!(chain.get_last_block().unwrap(), chain.blocks[3]);
}

#[test]
fn empty_name_never_available() {
    let mut chain = Blockchain::new("testnet", 7);
    assert!(!chain.is_domain_available("", &key(1)));
    let b = next_block(&chain, Some(claim("", &key(1))));
    assert_eq!(chain.add_block(b), AppendOutcome::Accepted);
    assert!(!chain.is_domain_available("", &key(1)));
    assert!(!chain.is_domain_available("", &key(2)));
}

#[test]
fn first_claim_wins() {
    let mut chain = Blockchain::new("testnet", 7);
    let k1 = key(1);
    let k2 = key(2);
    assert!(chain.is_domain_available("alice", &k1));
    assert!(chain.is_domain_available("alice", &k2));
    let b = next_block(&chain, Some(claim("alice", &k1)));
    assert_eq!(chain.add_block(b), AppendOutcome::Accepted);
    assert!(chain.is_domain_available("alice", &k1));
    assert!(!chain.is_domain_available("alice", &k2));
}

#[test]
fn sub_name_needs_claimed_zone() {
    let mut chain = Blockchain::new("testnet", 7);
    let k1 = key(1);
    let k2 = key(2);
    assert!(!chain.is_domain_available("sub.alice", &k1));
    let b = next_block(&chain, Some(claim("alice", &k2)));
    assert_eq!(chain.add_block(b), AppendOutcome::Accepted);
    assert!(chain.is_domain_available("sub.alice", &k1));
    assert!(chain.is_domain_available("sub.alice", &k2));
    let b = next_block(&chain, Some(claim("sub.alice", &k1)));
    assert_eq!(chain.add_block(b), AppendOutcome::Accepted);
    assert!(chain.is_domain_available("sub.alice", &k1));
    assert!(!chain.is_domain_available("sub.alice", &k2));
}

#[test]
fn three_level_names_never_available() {
    let mut chain = Blockchain::new("testnet", 7);
    assert!(!chain.is_domain_available("a.b.c", &key(1)));
    for name in ["c", "b.c", "a.b.c"] {
        let b = next_block(&chain, Some(claim(name, &key(1))));
        assert_eq!(chain.add_block(b), AppendOutcome::Accepted);
    }
    assert!(!chain.is_domain_available("a.b.c", &key(1)));
    assert!(!chain.is_domain_available("a.b.c", &key(2)));
    assert!(!chain.is_domain_available("a..", &key(1)));
}

#[test]
fn restore_adopts_stored_tip() {
    let mut chain = Blockchain::new("mainnet", 9);
    let b = next_block(&chain, Some(claim("alice", &key(1))));
    assert_eq!(b.chain_name, "testnet");
    assert_eq!(chain.add_block(b), AppendOutcome::Accepted);
    let tip = chain.get_last_block().unwrap();
    let history = chain.history.clone();
    let reopened = Blockchain::restore("other", 1, Some(tip.clone()), history);
    assert_eq!(reopened.chain_name, "testnet");
    assert_eq!(reopened.version_flags, 7);
    assert_eq!(reopened.get_last_block(), Some(tip.clone()));
    assert!(reopened.blocks.is_empty());
    assert!(!reopened.is_domain_available("alice", &key(2)));
    let mut reopened = reopened;
    let next = next_block(&reopened, None);
    assert_eq!(next.prev_block_hash, tip.hash);
    assert_eq!(reopened.add_block(next), AppendOutcome::Accepted);
}

#[test]
fn restore_over_empty_store_keeps_arguments() {
    let chain = Blockchain::restore("other", 1, None, Vec::new());
    assert_eq!(chain.chain_name, "other");
    assert_eq!(chain.version_flags, 1);
    assert_eq!(chain.get_last_block(), None);
}

#[test]
fn block_hash_is_sha256() {
    assert_eq!(hex(&Block::hash(b"abc")), "ba7816bf8f01cfea414140de5dae2223b00361a396177a9cb410ff61f20015ad");
    assert_eq!(hex(&Block::hash(b"")), "e3b0c44298fc1c149afbf4c8996fb92427ae41e4649b934ca495991b7852b855");
}

#[test]
fn check_block_verdicts() {
    let chain = Blockchain::new("testnet", 7);
    let g = next_block(&chain, None);
    assert_eq!(Blockchain::check_block(&g, &None), AppendOutcome::Accepted);
    let linked = Block::new(1, 2, "testnet", 7, 0, 0, 0, g.hash.clone(), None);
    assert_eq!(Blockchain::check_block(&linked, &Some(g.clone())), AppendOutcome::Accepted);
    let unlinked = Block::new(1, 2, "testnet", 7, 0, 0, 0, key(1), None);
    assert_eq!(Blockchain::check_block(&unlinked, &Some(g.clone())), AppendOutcome::RejectedLinkageMismatch);
    assert_eq!(Blockchain::check_block(&unlinked, &None), AppendOutcome::Accepted);
    let mut forged = linked.clone();
    forged.hash = key(1);
    assert_eq!(Blockchain::check_block(&forged, &Some(g)), AppendOutcome::RejectedHashMismatch);
}

#[test]
fn decision_with_given_identities() {
    let mut chain = Blockchain::new("testnet", 7);
    let zone_id = key(0x70);
    let name_id = key(0x71);
    let owner = key(1);
    let stranger = key(2);
    assert!(chain.is_available_given(b"alice", &name_id, &zone_id, &owner));
    assert!(!chain.is_available_given(b"", &name_id, &zone_id, &owner));
    assert!(!chain.is_available_given(b"sub.alice", &name_id, &zone_id, &owner));
    let zone_claim = Transaction::new(zone_id.clone(), "register".to_string(), String::new(), stranger.clone());
    let b = next_block(&chain, Some(zone_claim));
    assert_eq!(chain.add_block(b), AppendOutcome::Accepted);
    assert!(chain.is_available_given(b"sub.alice", &name_id, &zone_id, &owner));
    assert!(!chain.is_available_given(b"sub.alice", &name_id, &key(0x72), &owner));
    assert!(!chain.is_available_given(b"a.b.c", &name_id, &zone_id, &owner));
    let name_claim = Transaction::new(name_id.clone(), "register".to_string(), String::new(), owner.clone());
    let b = next_block(&chain, Some(name_claim));
    assert_eq!(chain.add_block(b), AppendOutcome::Accepted);
    assert!(chain.is_available_given(b"alice", &name_id, &zone_id, &owner));
    assert!(!chain.is_available_given(b"alice", &name_id, &zone_id, &stranger));
}
