//! Identities and bootstrap nodes.

use full_node::chain::Bootnode;
use full_node::network::{
    bootstrap_nodes, join_peers, local_peer_id, resolve_bootnode, resolve_bootnode_with, BootnodeError,
    PeerAddress,
};

const SECRET: [u8; 32] = [
    0x9d, 0x61, 0xb1, 0x9d, 0xef, 0xfd, 0x5a, 0x60, 0xba, 0x84, 0x4a, 0xf4, 0x92, 0xec, 0x2c, 0xc4,
    0x44, 0x49, 0xc5, 0x69, 0x7b, 0x32, 0x69, 0x19, 0x70, 0x3b, 0xac, 0x03, 0x1c, 0xae, 0x7f, 0x60,
];

fn peer_id(byte: u8) -> Vec<u8> {
    let mut id = vec![0, 36, 8, 1, 18, 32];
    id.extend([byte; 32]);
    id
}

fn parsed(multiaddr: &str, peer_id: Vec<u8>) -> Bootnode {
    Bootnode::Parsed {
        multiaddr: multiaddr.to_owned(),
        peer_id,
    }
}

#[test]
fn peer_id_comes_from_the_public_key() {
    assert_eq!(
        local_peer_id(&SECRET),
        "12D3KooWQK1wnefoLrcVHbbnf5tLzbopUd3K3bFAoJpA7YJgL5pV"
    );
    assert_ne!(local_peer_id(&[1; 32]), local_peer_id(&[2; 32]));
    assert_eq!(local_peer_id(&[1; 32]), local_peer_id(&[1; 32]));
}

#[test]
fn bootnodes_are_resolved() {
    let node = parsed("/ip4/127.0.0.1/tcp/30333", peer_id(3));
    let peer = match resolve_bootnode(&node) {
        Ok(peer) => peer,
        Err(_) => panic!(),
    };
    assert_eq!(peer.peer_id, peer_id(3));
    assert_eq!(peer.multiaddr, vec![4, 127, 0, 0, 1, 6, 0x76, 0x7d]);
}

#[test]
fn unrecognized_bootnodes_are_refused() {
    let node = Bootnode::UnrecognizedFormat("nonsense".to_owned());
    assert!(matches!(
        resolve_bootnode(&node),
        Err(BootnodeError::Address(text)) if text == "nonsense"
    ));
}

#[test]
fn bad_addresses_are_refused() {
    let node = parsed("/ip4/localhost", peer_id(3));
    assert!(matches!(
        resolve_bootnode(&node),
        Err(BootnodeError::Address(text)) if text == "/ip4/localhost"
    ));
}

#[test]
fn bad_identities_are_refused() {
    let node = parsed("/ip4/127.0.0.1/tcp/30333", vec![1, 2, 3]);
    assert!(matches!(
        resolve_bootnode(&node),
        Err(BootnodeError::PeerId)
    ));
}

#[test]
fn address_is_looked_at_before_identity() {
    let node = parsed("/ip4/localhost", vec![1, 2, 3]);
    assert!(matches!(
        resolve_bootnode(&node),
        Err(BootnodeError::Address(text)) if text == "/ip4/localhost"
    ));
}

#[test]
fn bootnode_follows_what_was_found_out() {
    let node = parsed("anything", vec![9]);
    let peer = match resolve_bootnode_with(&node, Some(vec![7, 8]), true) {
        Ok(peer) => peer,
        Err(_) => panic!(),
    };
    assert_eq!((peer.peer_id, peer.multiaddr), (vec![9], vec![7, 8]));
    assert!(matches!(
        resolve_bootnode_with(&node, Some(vec![7, 8]), false),
        Err(BootnodeError::PeerId)
    ));
    assert!(matches!(
        resolve_bootnode_with(&node, None, true),
        Err(BootnodeError::Address(text)) if text == "anything"
    ));
}

#[test]
fn additional_nodes_come_last() {
    let nodes = vec![
        parsed("/ip4/127.0.0.1/tcp/1", peer_id(1)),
        parsed("/ip4/127.0.0.1/tcp/2", peer_id(2)),
    ];
    let additional = vec![PeerAddress {
        peer_id: peer_id(9),
        multiaddr: vec![],
    }];
    let list = match bootstrap_nodes(&nodes, additional) {
        Ok(list) => list,
        Err(_) => panic!(),
    };
    assert_eq!(
        list.into_iter().map(|peer| peer.peer_id).collect::<Vec<_>>(),
        vec![peer_id(1), peer_id(2), peer_id(9)]
    );
}

#[test]
fn the_first_bad_bootnode_is_reported() {
    let nodes = vec![
        parsed("/ip4/127.0.0.1/tcp/1", peer_id(1)),
        Bootnode::UnrecognizedFormat("first".to_owned()),
        Bootnode::UnrecognizedFormat("second".to_owned()),
    ];
    assert!(matches!(
        bootstrap_nodes(&nodes, vec![]),
        Err(BootnodeError::Address(text)) if text == "first"
    ));
}

#[test]
fn peers_are_joined_up_to_the_first_error() {
    let peer = |byte| PeerAddress {
        peer_id: vec![byte],
        multiaddr: vec![],
    };
    let list = match join_peers(vec![Ok(peer(1)), Ok(peer(2))], vec![peer(3)]) {
        Ok(list) => list,
        Err(_) => panic!(),
    };
    assert_eq!(
        list.into_iter().map(|peer| peer.peer_id).collect::<Vec<_>>(),
        vec![vec![1], vec![2], vec![3]]
    );
    let found = vec![
        Ok(peer(1)),
        Err(BootnodeError::PeerId),
        Err(BootnodeError::Address("later".to_owned())),
    ];
    assert!(matches!(
        join_peers(found, vec![peer(3)]),
        Err(BootnodeError::PeerId)
    ));
}
