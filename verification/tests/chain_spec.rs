//! Reading chain specifications.

use full_node::chain::{Bootnode, ChainSpec};
use full_node::chain_spec::{genesis_storage, parse_chain_spec, read_prefixed, SpecError};
use full_node::hexadecimal::{read_hex, write_hex};
use full_node::json::{field, find_member, object, string};
use full_node::light_sync::{check_authority_set, check_epoch_changes};

const PEER: &str = "12D3KooWQK1wnefoLrcVHbbnf5tLzbopUd3K3bFAoJpA7YJgL5pV";

/// A specification, given its genesis and further members.
fn spec(genesis: &str, more: &str) -> String {
    format!(
        "{{\"name\":\"Local Test\",\"id\":\"local_test\",\"bootNodes\":[],\"genesis\":{genesis}\
         {more}}}"
    )
}

fn raw(children: &str) -> String {
    format!(
        "{{\"raw\":{{\"top\":{{\"0x02\":\"0x0304\",\"0x01\":\"0x\"}},\"childrenDefault\":{children}}}}}"
    )
}

fn parse(json: &str) -> ChainSpec {
    match parse_chain_spec(json.as_bytes()) {
        Ok(spec) => spec,
        Err(err) => panic!("{:?}", err),
    }
}

fn error(json: &str) -> Option<SpecError> {
    parse_chain_spec(json.as_bytes()).err()
}

/// A node of a tree of epochs that has the given children.
fn epoch_node(children: &[Vec<u8>]) -> Vec<u8> {
    let mut node = vec![0; 36];
    node.push(1);
    node.extend([0; 16]);
    node.push(children.len() as u8 * 4);
    for child in children {
        node.extend(child);
    }
    node
}

/// A tree that consists of one branch.
fn branch(levels: usize) -> Vec<u8> {
    let mut node = epoch_node(&[]);
    for _ in 1..levels {
        node = epoch_node(&[node]);
    }
    let mut tree = vec![4];
    tree.extend(node);
    tree
}

/// Epochs, given their tree. The latest finalized number and the list of epochs are empty.
fn epochs(mut tree: Vec<u8>) -> Vec<u8> {
    tree.extend([0, 0]);
    tree
}

/// A set without authorities and without changes.
fn authority_set() -> Vec<u8> {
    let mut set = vec![0];
    set.extend([0; 8]);
    set.extend([0, 0, 0, 0]);
    set
}

fn header() -> Vec<u8> {
    vec![0; 98]
}

fn light_sync_state(epochs: &[u8], header: &[u8], authorities: &[u8]) -> String {
    format!(
        ",\"lightSyncState\":{{\"babeEpochChanges\":\"0x{}\",\"babeFinalizedBlockWeight\":0,\
         \"finalizedBlockHeader\":\"0x{}\",\"grandpaAuthoritySet\":\"0x{}\"}}",
        write_hex(epochs),
        write_hex(header),
        write_hex(authorities)
    )
}

#[test]
fn specification_is_parsed() {
    let spec = parse(&format!(
        "{{\"name\":\"Statemint\",\"id\":\"statemint\",\"forkId\":\"fork\",\
         \"blockNumberBytes\":8,\"relay_chain\":\"polkadot\",\"para_id\":1000,\
         \"bootNodes\":[\"/ip4/127.0.0.1/tcp/30333/p2p/{PEER}\",\"nonsense\"],\
         \"genesis\":{}}}",
        raw("{}")
    ));
    assert_eq!(spec.name, "Statemint");
    assert_eq!(spec.id, "statemint");
    assert_eq!(spec.fork_id, Some("fork".to_owned()));
    assert_eq!(spec.block_number_bytes, 8);
    assert_eq!(spec.relay_chain, Some(("polkadot".to_owned(), 1000)));
    assert_eq!(spec.boot_nodes.len(), 2);
    assert!(matches!(
        &spec.boot_nodes[0],
        Bootnode::Parsed { multiaddr, peer_id }
            if multiaddr == "/ip4/127.0.0.1/tcp/30333" && peer_id[..6] == [0, 36, 8, 1, 18, 32]
    ));
    assert!(matches!(
        &spec.boot_nodes[1],
        Bootnode::UnrecognizedFormat(raw) if raw == "nonsense"
    ));
}

#[test]
fn what_is_missing_has_a_default() {
    let spec = parse(&spec(&raw("{}"), ""));
    assert_eq!(spec.fork_id, None);
    assert_eq!(spec.block_number_bytes, 4);
    assert_eq!(spec.relay_chain, None);
    assert!(spec.boot_nodes.is_empty());
}

#[test]
fn bad_specifications_are_refused() {
    assert_eq!(error(""), Some(SpecError::Invalid));
    assert_eq!(error("{}"), Some(SpecError::Invalid));
    assert_eq!(error("[]"), Some(SpecError::Invalid));
    assert_eq!(error("\"text\""), Some(SpecError::Invalid));
    assert_eq!(
        error(&spec(&raw("{}"), ",\"unknown\":1")),
        Some(SpecError::Invalid)
    );
    assert_eq!(
        error(&spec(&raw("{}"), ",\"relayChain\":\"polkadot\"")),
        Some(SpecError::Invalid)
    );
    assert_eq!(error(&spec("{\"raw\":{}}", "")), Some(SpecError::Invalid));
}

#[test]
fn child_tries_are_refused() {
    let tries = "{\"0x01\":{\"childInfo\":[],\"childType\":1}}";
    assert_eq!(error(&spec(&raw(tries), "")), Some(SpecError::ChildTries));
    let escaped = raw(tries).replace("childrenDefault", "children\\u0044efault");
    assert_eq!(error(&spec(&escaped, "")), Some(SpecError::ChildTries));
    assert_eq!(
        genesis_storage(spec(&raw(tries), "").as_bytes()).err(),
        Some(SpecError::ChildTries)
    );
}

#[test]
fn structures_may_be_arrays() {
    assert_eq!(error(&spec("{\"raw\":[{},{}]}", "")), None);
    let tries = "{\"raw\":[{},{\"0x01\":[[],1]}]}";
    assert_eq!(error(&spec(tries, "")), Some(SpecError::ChildTries));
    let fields = |genesis: &str| {
        format!(
            "[\"n\",\"i\",\"Live\",{{}},[],null,null,null,null,null,null,null,null,{genesis},null,\
             null,null]"
        )
    };
    assert_eq!(parse(&fields(&raw("{}"))).id, "i");
    assert_eq!(error(&fields(tries)), Some(SpecError::ChildTries));
}

#[test]
fn properties_are_not_looked_at() {
    let nested = format!(",\"properties\":{}1e999{}", "[".repeat(500), "]".repeat(500));
    assert_eq!(error(&spec(&raw("{}"), &nested)), None);
}

#[test]
fn genesis_storage_is_in_order() {
    let storage = genesis_storage(spec(&raw("{}"), "").as_bytes())
        .unwrap_or_else(|_| panic!())
        .unwrap();
    assert_eq!(storage.len(), 2);
    assert_eq!(storage.item(0), (&[1u8][..], &[][..]));
    assert_eq!(storage.item(1), (&[2u8][..], &[3u8, 4][..]));
}

#[test]
fn genesis_storage_may_be_missing() {
    let genesis = format!("{{\"stateRootHash\":\"0x{}\"}}", "00".repeat(32));
    let json = spec(&genesis, "");
    assert_eq!(parse(&json).id, "local_test");
    assert!(matches!(genesis_storage(json.as_bytes()), Ok(None)));
    assert_eq!(genesis_storage(b"{}").err(), Some(SpecError::Invalid));
}

#[test]
fn light_sync_state_is_accepted() {
    let state = light_sync_state(&epochs(branch(3)), &header(), &authority_set());
    assert_eq!(error(&spec(&raw("{}"), &state)), None);
    assert_eq!(error(&spec(&raw("{}"), ",\"lightSyncState\":null")), None);
}

#[test]
fn light_sync_state_with_too_many_nodes_is_refused() {
    // The number of roots is close to the greatest one that there is.
    let roots = [0x13, 0xff, 0xff, 0xff, 0xff, 0xff, 0xff, 0xff, 0x7f];
    let state = light_sync_state(&roots, &header(), &authority_set());
    assert_eq!(
        error(&spec(&raw("{}"), &state)),
        Some(SpecError::LightSyncState)
    );
    let mut set = vec![0; 9];
    set.extend(roots);
    let state = light_sync_state(&epochs(branch(1)), &header(), &set);
    assert_eq!(
        error(&spec(&raw("{}"), &state)),
        Some(SpecError::LightSyncState)
    );
}

#[test]
fn light_sync_state_with_a_bad_epoch_is_refused() {
    let mut header = vec![0; 97];
    header.extend([4, 4, 0x42, 0x41, 0x42, 0x45, 0x28, 0x01, 0x13]);
    header.extend([0xcc; 7]);
    header.push(0x0c);
    let state = light_sync_state(&epochs(branch(1)), &header, &authority_set());
    assert_eq!(
        error(&spec(&raw("{}"), &state)),
        Some(SpecError::LightSyncState)
    );
}

#[test]
fn light_sync_state_that_is_not_hexadecimal_is_invalid() {
    let state = light_sync_state(&epochs(branch(1)), &header(), &authority_set());
    assert_eq!(
        error(&spec(&raw("{}"), &state.replace("0x", "0y"))),
        Some(SpecError::Invalid)
    );
    let mut header = header();
    header.push(0);
    let state = light_sync_state(&epochs(branch(1)), &header, &authority_set());
    assert_eq!(error(&spec(&raw("{}"), &state)), Some(SpecError::Invalid));
}

#[test]
fn trees_are_not_too_deep() {
    assert!(check_epoch_changes(&branch(1)));
    assert!(check_epoch_changes(&branch(128)));
    assert!(!check_epoch_changes(&branch(129)));
    let state = light_sync_state(&epochs(branch(128)), &header(), &authority_set());
    assert_eq!(error(&spec(&raw("{}"), &state)), None);
    let state = light_sync_state(&epochs(branch(129)), &header(), &authority_set());
    assert_eq!(
        error(&spec(&raw("{}"), &state)),
        Some(SpecError::LightSyncState)
    );
}

#[test]
fn trees_declare_no_more_nodes_than_there_is_room_for() {
    let mut tree = vec![8];
    tree.extend(epoch_node(&[epoch_node(&[]), epoch_node(&[])]));
    tree.extend(epoch_node(&[]));
    assert!(check_epoch_changes(&tree));
    assert!(!check_epoch_changes(&tree[..tree.len() - 1]));
    tree[0] = 12;
    assert!(!check_epoch_changes(&tree));
    assert!(!check_epoch_changes(&[]));
    assert!(check_epoch_changes(&[0]));
}

#[test]
fn changes_of_authorities_are_skipped() {
    // One authority in the set, and a change with one authority and with either delay.
    for delay in [&[0u8][..], &[1, 0, 0, 0, 0][..]] {
        let mut set = vec![4];
        set.extend([0; 48]);
        set.push(4);
        set.extend([0; 36]);
        set.push(4);
        set.extend([0; 80]);
        set.extend(delay);
        set.push(0);
        assert!(check_authority_set(&set));
        assert!(!check_authority_set(&set[..set.len() - 1]));
    }
    assert!(check_authority_set(&authority_set()));
    assert!(!check_authority_set(&[0; 8]));
    assert!(!check_authority_set(&[]));
}

#[test]
fn json_is_taken_apart() {
    let json = b" { \"b\" : [1, 2] , \"a\" : \"x\\u0079\", \"b\": null } ";
    assert_eq!(
        object(json),
        Some(vec![
            ("a".to_owned(), "\"x\\u0079\"".to_owned()),
            ("b".to_owned(), "null".to_owned())
        ])
    );
    assert_eq!(object(b"[]"), None);
    assert_eq!(object(b"{} {}"), None);
    assert_eq!(field(json, "b", 0), Some("null".to_owned()));
    assert_eq!(field(json, "c", 0), None);
    assert_eq!(field(b"[1, {} ]", "c", 1), Some("{}".to_owned()));
    assert_eq!(field(b"[1, {} ]", "c", 2), None);
    assert_eq!(field(b"3", "c", 0), None);
    assert_eq!(string(b"\"x\\u0079\""), Some("xy".to_owned()));
    assert_eq!(string(b"1"), None);
}

#[test]
fn the_first_member_with_a_name_is_found() {
    let members = vec![
        ("a".to_owned(), "1".to_owned()),
        ("b".to_owned(), "2".to_owned()),
        ("b".to_owned(), "3".to_owned()),
    ];
    assert_eq!(find_member(&members, "b"), Some("2".to_owned()));
    assert_eq!(find_member(&members, "c"), None);
}

#[test]
fn hexadecimal_is_read_back() {
    assert_eq!(write_hex(&[0, 0x1f, 0xff]), "001fff");
    assert_eq!(read_hex("001fFF"), Some(vec![0, 0x1f, 0xff]));
    assert_eq!(read_hex("0"), None);
    assert_eq!(read_prefixed("0x001f"), Some(vec![0, 0x1f]));
    assert_eq!(read_prefixed("0x"), Some(vec![]));
    assert_eq!(read_prefixed("001f"), None);
    assert_eq!(read_prefixed("0x1"), None);
    assert_eq!(read_prefixed("0"), None);
}
