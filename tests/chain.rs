use crypto::digest::Digest;
use naivechain_rs::block::{check_chain, Block, BlockData, Hash32Byte};
use naivechain_rs::consensus::is_chain_better;

fn zero_genesis_digest() -> [u8; 32] {
    let msg = vec![0u8; 8 + 32 + 8 + 1024];
    let mut sha = crypto::sha2::Sha256::new();
    sha.input(&msg);
    let mut out = [0u8; 32];
    sha.result(&mut out);
    out
}

fn chain_of(n: usize) -> Vec<Block> {
    let mut chain = vec![Block::genesis()];
    for i in 0..n {
        let next = Block::with_timestamp(chain.last().unwrap(), [i as u8; 1024], 1000 + i as u64);
        chain.push(next);
    }
    chain
}

#[test]
fn genesis_is_the_fixed_block() {
    let g = Block::genesis();
    assert_eq!(g.block_num, 0);
    assert_eq!(g.timestamp, 0);
    assert!(g.previous_hash == Hash32Byte([0; 32]));
    assert!(g.data == BlockData([0; 1024]));
    assert!(g.hash == Hash32Byte(zero_genesis_digest()));
    assert!(g == Block::genesis());
}

#[test]
fn block_hash_covers_big_endian_fields() {
    let g = Block::genesis();
    let b = Block::with_timestamp(&g, [7u8; 1024], 0x0102030405060708);
    let mut msg = Vec::new();
    msg.extend_from_slice(&1u64.to_be_bytes());
    msg.extend_from_slice(&g.hash.0);
    msg.extend_from_slice(&0x0102030405060708u64.to_be_bytes());
    msg.extend_from_slice(&[7u8; 1024]);
    let mut sha = crypto::sha2::Sha256::new();
    sha.input(&msg);
    let mut out = [0u8; 32];
    sha.result(&mut out);
    assert_eq!(b.block_num, 1);
    assert!(b.previous_hash == g.hash);
    assert_eq!(b.timestamp, 0x0102030405060708);
    assert!(b.hash == Hash32Byte(out));
    assert!(b.hash != g.hash);
}

#[test]
fn minted_block_follows_parent() {
    let g = Block::genesis();
    let b = Block::new(&g, [1u8; 1024]);
    assert_eq!(b.block_num, 1);
    assert!(b.previous_hash == g.hash);
    assert!(b.data == BlockData([1u8; 1024]));
    assert!(check_chain(&[g, b]));
}

#[test]
fn empty_and_single_chains() {
    assert!(check_chain(&[]));
    assert!(check_chain(&[Block::genesis()]));
    let g = Block::genesis();
    let not_genesis = Block::with_timestamp(&g, [0; 1024], 5);
    assert!(!check_chain(&[not_genesis]));
}

#[test]
fn extending_a_valid_chain_keeps_it_valid() {
    let mut chain = chain_of(3);
    assert!(check_chain(&chain));
    let next = Block::with_timestamp(chain.last().unwrap(), [9; 1024], 99);
    chain.push(next);
    assert!(check_chain(&chain));
    assert_eq!(chain.len(), 5);
}

#[test]
fn first_block_must_be_genesis() {
    let mut chain = chain_of(2);
    chain[0].timestamp = 1;
    assert!(!check_chain(&chain));
}

#[test]
fn broken_hash_link_is_rejected() {
    let mut chain = chain_of(3);
    chain[2].previous_hash = Hash32Byte([1; 32]);
    assert!(!check_chain(&chain));
}

#[test]
fn out_of_sequence_number_is_rejected() {
    let mut chain = chain_of(3);
    chain[3].block_num = 7;
    assert!(!check_chain(&chain));
}

#[test]
fn chain_is_not_better_than_itself() {
    let x = chain_of(2);
    assert!(!is_chain_better(&x, &x.clone()));
    let g = vec![Block::genesis()];
    assert!(!is_chain_better(&g, &g.clone()));
    let empty: Vec<Block> = vec![];
    assert!(!is_chain_better(&empty, &empty));
}

#[test]
fn invalid_candidate_is_rejected_whatever_its_length() {
    let mut long = chain_of(10);
    long[4].previous_hash = Hash32Byte([3; 32]);
    let short = chain_of(1);
    assert!(!is_chain_better(&long, &short));
}

#[test]
fn longer_valid_chain_wins() {
    assert!(is_chain_better(&chain_of(3), &chain_of(2)));
    assert!(!is_chain_better(&chain_of(2), &chain_of(3)));
}

#[test]
fn equal_length_newer_tip_wins() {
    let g = Block::genesis();
    let older = vec![g.clone(), Block::with_timestamp(&g, [1; 1024], 10)];
    let newer = vec![g.clone(), Block::with_timestamp(&g, [2; 1024], 20)];
    assert!(is_chain_better(&newer, &older));
    assert!(!is_chain_better(&older, &newer));
}
