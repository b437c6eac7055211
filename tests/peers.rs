use naivechain_rs::block::{check_chain, timestamp_from_parts, Block};
use naivechain_rs::message::ClientMessage;
use naivechain_rs::node::{Node, PeerAction, PeerEvent};
use naivechain_rs::registry::{Address, Registry};
use naivechain_rs::repl::{ns_to_spec, ReplCommand};

fn exchange(from: &mut Node, to: &mut Node) {
    match from.handle_peer_event(PeerEvent::Message(ClientMessage::QueryChain)) {
        PeerAction::Reply(msg) => {
            let r = to.handle_peer_event(PeerEvent::Message(msg));
            assert!(matches!(r, PeerAction::Nothing));
        }
        other => panic!("unexpected {:?}", other),
    }
}

#[test]
fn late_joiner_catches_up() {
    let mut node1 = Node::new();
    for _ in 0..3 {
        assert!(node1.mint_block([0; 1024]).is_some());
    }
    let mut node2 = Node::new();
    exchange(&mut node1, &mut node2);
    assert_eq!(node2.chain().len(), 4);
    assert!(node2.chain() == node1.chain());
}

#[test]
fn equal_chains_converge_on_newest_tip() {
    let g = Block::genesis();
    let older = vec![g.clone(), Block::with_timestamp(&g, [1; 1024], 100)];
    let newer = vec![g.clone(), Block::with_timestamp(&g, [2; 1024], 200)];
    let mut node1 = Node::from_chain(older).unwrap();
    let mut node2 = Node::from_chain(newer.clone()).unwrap();
    exchange(&mut node1, &mut node2);
    exchange(&mut node2, &mut node1);
    assert!(node1.chain() == &newer);
    assert!(node2.chain() == &newer);
    assert_eq!(node1.tip().timestamp, 200);
}

#[test]
fn mismatched_block_asks_for_chain() {
    let mut node = Node::new();
    node.mint_block([0; 1024]).unwrap();
    let g = Block::genesis();
    let stray = Block::with_timestamp(&g, [4; 1024], 7);
    let r = node.handle_peer_event(PeerEvent::Message(ClientMessage::NewBlock(stray)));
    assert!(matches!(r, PeerAction::Reply(ClientMessage::QueryChain)));
    assert_eq!(node.chain().len(), 2);
}

#[test]
fn matching_block_is_appended() {
    let mut node = Node::new();
    let next = Block::with_timestamp(node.tip(), [4; 1024], 7);
    let r = node.handle_peer_event(PeerEvent::Message(ClientMessage::NewBlock(next.clone())));
    assert!(matches!(r, PeerAction::Nothing));
    assert_eq!(node.chain().len(), 2);
    assert!(*node.tip() == next);
}

#[test]
fn query_chain_is_answered_with_chain() {
    let mut node = Node::new();
    node.mint_block([3; 1024]).unwrap();
    match node.handle_peer_event(PeerEvent::Message(ClientMessage::QueryChain)) {
        PeerAction::Reply(ClientMessage::Chain(c)) => assert!(&c == node.chain()),
        other => panic!("unexpected {:?}", other),
    }
}

#[test]
fn closed_or_failed_peer_is_dropped() {
    let mut node = Node::new();
    assert!(matches!(node.handle_peer_event(PeerEvent::Closed), PeerAction::Drop));
    assert!(matches!(node.handle_peer_event(PeerEvent::Failed), PeerAction::Drop));
    assert!(matches!(node.handle_peer_event(PeerEvent::NoData), PeerAction::Nothing));
    assert_eq!(node.chain().len(), 1);
}

#[test]
fn empty_or_invalid_loaded_chain_is_refused() {
    assert!(Node::from_chain(vec![]).is_none());
    let g = Block::genesis();
    let mut stray = Block::with_timestamp(&g, [0; 1024], 3);
    stray.block_num = 2;
    assert!(Node::from_chain(vec![g.clone(), stray]).is_none());
    let mut not_genesis = Block::genesis();
    not_genesis.timestamp = 1;
    assert!(Node::from_chain(vec![not_genesis]).is_none());
    assert!(Node::from_chain(vec![g]).is_some());
}

#[test]
fn block_with_wrong_number_asks_for_chain() {
    let mut node = Node::new();
    let mut wrong = Block::with_timestamp(node.tip(), [4; 1024], 7);
    wrong.block_num = 5;
    let r = node.handle_peer_event(PeerEvent::Message(ClientMessage::NewBlock(wrong)));
    assert!(matches!(r, PeerAction::Reply(ClientMessage::QueryChain)));
    assert_eq!(node.chain().len(), 1);
    assert!(check_chain(node.chain()));
}

#[test]
fn registry_forgets_disconnected_clients() {
    let mut registry = Registry::new();
    let x = Address { ip: 0xffff_7f00_0001, port: 40001 };
    let y = Address { ip: 0xffff_7f00_0001, port: 40002 };
    registry.inform(x, 9001);
    assert_eq!(registry.query(y), vec![Address { ip: x.ip, port: 9001 }]);
    assert_eq!(registry.query(x), vec![]);
    registry.forget(x);
    assert_eq!(registry.query(y), vec![]);
    assert_eq!(registry.len(), 0);
}

#[test]
fn registry_inform_overwrites() {
    let mut registry = Registry::new();
    let x = Address { ip: 1, port: 5 };
    let y = Address { ip: 2, port: 6 };
    registry.inform(x, 100);
    registry.inform(x, 200);
    registry.inform(y, 300);
    assert_eq!(registry.len(), 2);
    assert_eq!(registry.query(y), vec![Address { ip: 1, port: 200 }]);
    registry.forget(Address { ip: 9, port: 9 });
    assert_eq!(registry.len(), 2);
}

#[test]
fn commands_parse_by_keyword() {
    assert_eq!(ReplCommand::from_word(Some("mint-block".to_string())), Ok(ReplCommand::NewBlock));
    assert_eq!(ReplCommand::from_word(Some("print-chain".to_string())), Ok(ReplCommand::ShowChain));
    assert_eq!(ReplCommand::from_word(Some("list-peers".to_string())), Ok(ReplCommand::ListPeers));
    assert_eq!(
        ReplCommand::from_word(Some("show-latest-block-summary".to_string())),
        Ok(ReplCommand::Latest)
    );
    assert_eq!(ReplCommand::from_word(Some("help".to_string())), Ok(ReplCommand::Help));
    assert_eq!(ReplCommand::from_word(Some("quit".to_string())), Ok(ReplCommand::Exit));
    assert_eq!(ReplCommand::from_word(Some("mine".to_string())), Err("Unrecognized input".to_string()));
    assert_eq!(ReplCommand::from_word(None), Err("no input".to_string()));
}

#[test]
fn words_outside_the_vocabulary_are_errors() {
    for w in ["block", "chain", "exit", "peers", "latest", "Help", "mint"] {
        assert_eq!(ReplCommand::from_word(Some(w.to_string())), Err("Unrecognized input".to_string()));
    }
}

#[test]
fn commands_parse_by_first_word_of_line() {
    assert_eq!(ReplCommand::parse("  mint-block extra words\n".to_string()), Ok(ReplCommand::NewBlock));
    assert_eq!(ReplCommand::parse("\tlist-peers".to_string()), Ok(ReplCommand::ListPeers));
    assert_eq!(ReplCommand::parse("".to_string()), Err("no input".to_string()));
    assert_eq!(ReplCommand::parse("   \n".to_string()), Err("no input".to_string()));
    assert_eq!(ReplCommand::parse("block".to_string()), Err("Unrecognized input".to_string()));
}

#[test]
fn help_lists_every_command() {
    let lines: Vec<String> = ReplCommand::variants().iter().map(|c| c.help_string()).collect();
    assert_eq!(lines.len(), 6);
    assert_eq!(lines[0], "mint-block - create a new block");
    assert_eq!(lines[3], "show-latest-block-summary - show some info about the latest block");
    assert_eq!(lines[5], "help - display this list");
}

#[test]
fn nanoseconds_split_into_seconds() {
    assert_eq!(ns_to_spec(1_500_000_007), (1, 500_000_007));
    assert_eq!(ns_to_spec(u64::MAX), (18_446_744_073, 709_551_615));
}

#[test]
fn wall_clock_parts_become_nanoseconds() {
    assert_eq!(timestamp_from_parts(1, 500_000_007), 1_500_000_007);
    assert_eq!(timestamp_from_parts(0, 0), 0);
    assert_eq!(timestamp_from_parts(-1, 5), 0);
    assert_eq!(timestamp_from_parts(18_446_744_073, 709_551_615), u64::MAX);
    assert_eq!(timestamp_from_parts(18_446_744_073, 709_551_616), u64::MAX);
    assert_eq!(timestamp_from_parts(i64::MAX, 0), u64::MAX);
}

#[test]
fn minted_blocks_carry_wall_clock_time() {
    let mut node = Node::new();
    let b = node.mint_block([0; 1024]).unwrap();
    // After 2017-01-01 in nanoseconds since the Unix epoch.
    assert!(b.timestamp > 1_483_228_800_000_000_000);
}
