//! What the services are told of each chain.

use full_node::chain::{Bootnode, ChainSpec};
use full_node::network::{BootnodeError, PeerAddress};
use full_node::services::{
    block_number_bytes, consensus_config, consensus_config_with, listeners, network_chain,
    network_chain_with, network_chains, network_index, num_events_receivers, BlockNumberBytes,
    ChainInput, ChainSlot, ChainState, Listener, NetworkChainError,
};

fn encoded_header(number: u8) -> Vec<u8> {
    let mut header = vec![7; 32];
    header.push(number * 4);
    header.extend([1; 32]);
    header.extend([2; 32]);
    header.push(0);
    header
}

/// Hash of the header of the block of number five.
const HASH: [u8; 32] = [
    209, 119, 27, 233, 13, 95, 91, 190, 130, 248, 8, 214, 174, 187, 131, 221, 195, 22, 83, 16, 208,
    234, 226, 88, 67, 254, 154, 173, 247, 148, 35, 216,
];

fn spec(id: &str, bytes: u8, boot_nodes: Vec<Bootnode>) -> ChainSpec {
    ChainSpec {
        id: id.to_owned(),
        name: id.to_owned(),
        fork_id: Some(format!("{id}-fork")),
        block_number_bytes: bytes,
        relay_chain: None,
        boot_nodes,
    }
}

fn state(number: u8) -> ChainState {
    ChainState {
        has_grandpa_protocol: true,
        genesis_header: encoded_header(5),
        finalized_hash: [8; 32],
        finalized_header: encoded_header(number),
    }
}

fn added() -> PeerAddress {
    PeerAddress {
        peer_id: vec![1],
        multiaddr: vec![2],
    }
}

#[test]
fn chains_have_an_index() {
    assert_eq!(network_index(ChainSlot::Main), 0);
    assert_eq!(network_index(ChainSlot::Relay), 1);
}

#[test]
fn relay_headers_are_read_like_those_of_the_main_chain() {
    assert_eq!(
        block_number_bytes(ChainSlot::Main, 4, 8),
        BlockNumberBytes {
            database: 4,
            network: 4,
            network_genesis: 4,
            best_block: 4,
            consensus: 4,
        }
    );
    assert_eq!(
        block_number_bytes(ChainSlot::Relay, 4, 8),
        BlockNumberBytes {
            database: 8,
            network: 8,
            network_genesis: 4,
            best_block: 4,
            consensus: 8,
        }
    );
}

#[test]
fn network_service_is_told_of_a_chain() {
    let chain = match network_chain(
        ChainSlot::Main,
        &spec("main", 4, vec![]),
        4,
        &state(9),
        vec![added()],
    ) {
        Ok(chain) => chain,
        Err(_) => panic!(),
    };
    assert_eq!(chain.fork_id, Some("main-fork".to_owned()));
    assert_eq!(chain.block_number_bytes, 4);
    assert!(chain.has_grandpa_protocol);
    assert_eq!(chain.genesis_block_hash, HASH);
    assert_eq!(chain.best_block, (9, [8; 32]));
    assert_eq!(chain.bootstrap_nodes.len(), 1);
    assert_eq!(chain.bootstrap_nodes[0].peer_id, vec![1]);
}

#[test]
fn bad_finalized_header_is_reported_first() {
    let mut state = state(9);
    state.finalized_header.pop();
    let spec = spec(
        "main",
        4,
        vec![Bootnode::UnrecognizedFormat("bad".to_owned())],
    );
    assert!(matches!(
        network_chain(ChainSlot::Main, &spec, 4, &state, vec![]),
        Err(NetworkChainError::FinalizedHeader)
    ));
}

#[test]
fn bad_bootnode_is_reported() {
    let spec = spec(
        "main",
        4,
        vec![Bootnode::UnrecognizedFormat("bad".to_owned())],
    );
    assert!(matches!(
        network_chain(ChainSlot::Main, &spec, 4, &state(9), vec![]),
        Err(NetworkChainError::Bootnode(BootnodeError::Address(text))) if text == "bad"
    ));
}

#[test]
fn only_the_main_chain_gets_the_additional_nodes() {
    let (main, relay) = (spec("main", 4, vec![]), spec("relay", 8, vec![]));
    let (main_state, relay_state) = (state(9), state(3));
    let main = ChainInput {
        spec: &main,
        state: &main_state,
    };
    let relay = ChainInput {
        spec: &relay,
        state: &relay_state,
    };
    let chains = match network_chains(&main, Some(&relay), vec![added()]) {
        Ok(chains) => chains,
        Err(_) => panic!(),
    };
    assert_eq!(chains.len(), 2);
    assert_eq!(chains[0].bootstrap_nodes.len(), 1);
    assert_eq!(chains[1].bootstrap_nodes.len(), 0);
    assert_eq!(chains[1].block_number_bytes, 8);
    assert_eq!(chains[1].best_block, (3, [8; 32]));
    assert_eq!(chains[1].fork_id, Some("relay-fork".to_owned()));
    match network_chains(&main, None, vec![]) {
        Ok(chains) => assert_eq!(chains.len(), 1),
        Err(_) => panic!(),
    }
}

#[test]
fn errors_of_the_relay_chain_are_reported() {
    let main = spec("main", 4, vec![]);
    let relay = spec(
        "relay",
        4,
        vec![Bootnode::UnrecognizedFormat("relay node".to_owned())],
    );
    let state = state(9);
    let result = network_chains(
        &ChainInput {
            spec: &main,
            state: &state,
        },
        Some(&ChainInput {
            spec: &relay,
            state: &state,
        }),
        vec![],
    );
    assert!(matches!(
        result,
        Err(NetworkChainError::Bootnode(BootnodeError::Address(text))) if text == "relay node"
    ));
}

#[test]
fn consensus_service_is_told_of_a_chain() {
    let config = consensus_config(ChainSlot::Relay, 8, &encoded_header(5));
    assert_eq!(config.genesis_block_hash, HASH);
    assert_eq!(config.network_index, 1);
    assert_eq!(config.block_number_bytes, 8);
    assert_eq!(config.slot_duration_author_ratio, 43691);
}

#[test]
fn every_receiver_is_used() {
    assert_eq!(num_events_receivers(false), 2);
    assert_eq!(num_events_receivers(true), 3);
    assert_eq!(
        listeners(false),
        vec![Listener::Consensus(ChainSlot::Main), Listener::MainTask]
    );
    assert_eq!(
        listeners(true),
        vec![
            Listener::Consensus(ChainSlot::Main),
            Listener::Consensus(ChainSlot::Relay),
            Listener::MainTask
        ]
    );
}

#[test]
fn chain_follows_what_was_found_out() {
    let (spec, state) = (spec("main", 8, vec![]), state(9));
    let chain = match network_chain_with(&spec, &state, Some(17), [4; 32], Ok(vec![added()])) {
        Ok(chain) => chain,
        Err(_) => panic!(),
    };
    assert_eq!(chain.fork_id, Some("main-fork".to_owned()));
    assert_eq!(chain.block_number_bytes, 8);
    assert_eq!(chain.genesis_block_hash, [4; 32]);
    assert_eq!(chain.best_block, (17, [8; 32]));
    assert_eq!(chain.bootstrap_nodes.len(), 1);
    assert!(matches!(
        network_chain_with(&spec, &state, None, [4; 32], Err(BootnodeError::PeerId)),
        Err(NetworkChainError::FinalizedHeader)
    ));
    assert!(matches!(
        network_chain_with(&spec, &state, Some(17), [4; 32], Err(BootnodeError::PeerId)),
        Err(NetworkChainError::Bootnode(BootnodeError::PeerId))
    ));
}

#[test]
fn consensus_service_follows_the_hash() {
    let config = consensus_config_with(ChainSlot::Main, 4, [6; 32]);
    assert_eq!(config.genesis_block_hash, [6; 32]);
    assert_eq!(config.network_index, 0);
    assert_eq!(config.block_number_bytes, 4);
    assert_eq!(config.slot_duration_author_ratio, 43691);
}
