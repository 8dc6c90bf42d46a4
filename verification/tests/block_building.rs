//! Builds a block on top of the genesis block of a small chain, whose storage the library answers
//! for.

use full_node::chain_spec::genesis_storage;
use full_node::database::{
    database_existed, genesis_content, on_database_found, DatabaseFound, OpenedDatabase,
};
use full_node::header;
use smoldot::author::runtime::{
    build_block, BlockBuild, Config, ConfigPreRuntime, TrieEntryVersion,
};
use smoldot::chain_spec::ChainSpec;
use smoldot::database::full_sqlite;
use smoldot::trie::branch_search;
use smoldot::verify::inherents;
use std::iter;

/// A number in the variable-length encoding of WebAssembly.
fn leb(mut value: i64) -> Vec<u8> {
    let mut out = Vec::new();
    loop {
        let byte = (value & 0x7f) as u8;
        value >>= 7;
        if (value == 0 && byte & 0x40 == 0) || (value == -1 && byte & 0x40 != 0) {
            out.push(byte);
            return out;
        }
        out.push(byte | 0x80);
    }
}

/// An unsigned length in the variable-length encoding of WebAssembly.
fn length(mut value: usize) -> Vec<u8> {
    let mut out = Vec::new();
    loop {
        let byte = (value & 0x7f) as u8;
        value >>= 7;
        if value == 0 {
            out.push(byte);
            return out;
        }
        out.push(byte | 0x80);
    }
}

fn prefixed(bytes: &[u8]) -> Vec<u8> {
    let mut out = length(bytes.len());
    out.extend_from_slice(bytes);
    out
}

fn vector(items: &[Vec<u8>]) -> Vec<u8> {
    let mut out = length(items.len());
    for item in items {
        out.extend_from_slice(item);
    }
    out
}

fn section(id: u8, content: Vec<u8>) -> Vec<u8> {
    let mut out = vec![id];
    out.extend(prefixed(&content));
    out
}

fn custom_section(name: &str, content: &[u8]) -> Vec<u8> {
    let mut body = prefixed(name.as_bytes());
    body.extend_from_slice(content);
    section(0, body)
}

/// A pointer and a size, as runtimes pass them.
fn pointer_size(pointer: i64, size: i64) -> i64 {
    (size << 32) | pointer
}

fn i64_const(value: i64) -> Vec<u8> {
    let mut out = vec![0x42];
    out.extend(leb(value));
    out
}

fn call(function: u8) -> Vec<u8> {
    vec![0x10, function]
}

fn import(name: &str, ty: u8) -> Vec<u8> {
    let mut out = prefixed(b"env");
    out.extend(prefixed(name.as_bytes()));
    out.extend([0x00, ty]);
    out
}

fn export(name: &str, kind: u8, index: u8) -> Vec<u8> {
    let mut out = prefixed(name.as_bytes());
    out.extend([kind, index]);
    out
}

fn body(instructions: &[Vec<u8>]) -> Vec<u8> {
    let mut out = vec![0x00];
    for instruction in instructions {
        out.extend_from_slice(instruction);
    }
    out.push(0x0b);
    prefixed(&out)
}

/// A runtime that stores the header that a block is initialized with, makes sure that some storage
/// key follows `:code`, and gives the header back when the block is finalized.
fn runtime() -> Vec<u8> {
    let header_key = pointer_size(0, 6);
    let code_key = pointer_size(8, 5);
    let zero = 16;

    let mut out = b"\0asm\x01\0\0\0".to_vec();
    out.extend(section(
        1,
        vector(&[
            vec![0x60, 2, 0x7e, 0x7e, 0],
            vec![0x60, 1, 0x7e, 1, 0x7e],
            vec![0x60, 2, 0x7f, 0x7f, 1, 0x7e],
        ]),
    ));
    out.extend(section(
        2,
        vector(&[
            import("ext_storage_set_version_1", 0),
            import("ext_storage_get_version_1", 1),
            import("ext_storage_next_key_version_1", 1),
        ]),
    ));
    out.extend(section(3, vector(&[vec![2], vec![2], vec![2], vec![2]])));
    out.extend(section(5, vector(&[vec![0x00, 1]])));
    out.extend(section(
        6,
        vector(&[vec![0x7f, 0x00, 0x41, 0x80, 0x08, 0x0b]]),
    ));
    out.extend(section(
        7,
        vector(&[
            export("memory", 2, 0),
            export("__heap_base", 3, 0),
            export("Core_initialize_block", 0, 3),
            export("BlockBuilder_inherent_extrinsics", 0, 4),
            export("BlockBuilder_apply_extrinsic", 0, 5),
            export("BlockBuilder_finalize_block", 0, 6),
        ]),
    ));
    out.extend(section(
        10,
        vector(&[
            body(&[
                i64_const(header_key),
                vec![0x20, 0, 0xad, 0x20, 1, 0xad],
                i64_const(32),
                vec![0x86, 0x84],
                call(0),
                i64_const(code_key),
                call(2),
                vec![0xa7, 0x2d, 0, 0, 0x45, 0x04, 0x40, 0x00, 0x0b],
                i64_const(0),
            ]),
            body(&[i64_const(pointer_size(zero, 1))]),
            body(&[i64_const(pointer_size(zero, 2))]),
            body(&[
                i64_const(header_key),
                call(1),
                // The value comes behind one byte that tells that it is there, and behind its
                // length in two bytes.
                i64_const(pointer_size(3, 0) - pointer_size(0, 3)),
                vec![0x7c],
            ]),
        ]),
    ));
    let mut data = vec![0x00, 0x41, 0, 0x0b];
    data.extend(prefixed(b"header\0\0:code\0\0\0\0\0"));
    out.extend(section(11, vector(&[data])));

    let mut version = vec![16];
    version.extend(b"test");
    version.push(16);
    version.extend(b"test");
    version.extend([1, 0, 0, 0, 1, 0, 0, 0, 1, 0, 0, 0, 0, 1, 0, 0, 0, 0]);
    out.extend(custom_section("runtime_version", &version));
    out.extend(custom_section("runtime_apis", &[]));
    out
}

fn example_chain_specs() -> String {
    format!(
        "{{\"name\":\"Example\",\"id\":\"example\",\"chainType\":\"Local\",\"bootNodes\":[],\
         \"genesis\":{{\"raw\":{{\"top\":{{\"0x{}\":\"0x{}\",\"0x{}\":\"0x01\",\
         \"0x{}\":\"0x02\"}},\"childrenDefault\":{{}}}}}}}}",
        hex::encode(b":code"),
        hex::encode(runtime()),
        hex::encode(b":codf"),
        hex::encode(b":d"),
    )
}

#[test]
fn block_building_works() {
    let chain_specs = ChainSpec::from_json_bytes(example_chain_specs().as_bytes()).unwrap();
    let genesis_storage = genesis_storage(example_chain_specs().as_bytes())
        .unwrap()
        .unwrap();
    let (chain_info, genesis_runtime) = chain_specs.to_chain_information().unwrap();
    let genesis_hash = chain_info.as_ref().finalized_block_header.hash(4);

    let mut builder = build_block(Config {
        block_number_bytes: 4,
        parent_runtime: genesis_runtime,
        parent_hash: &genesis_hash,
        parent_number: 0,
        block_body_capacity: 0,
        consensus_digest_log_item: ConfigPreRuntime::Aura(smoldot::header::AuraPreDigest {
            slot_number: 1234u64,
        }),
        max_log_level: 0,
    });

    loop {
        match builder {
            BlockBuild::Finished(Ok(success)) => {
                let decoded = header::decode(&success.scale_encoded_header, 4).unwrap();
                assert_eq!(decoded.number, 1);
                assert_eq!(decoded.parent_hash, genesis_hash);
                break;
            }
            BlockBuild::Finished(Err((err, _))) => panic!("{}", err),
            BlockBuild::ApplyExtrinsic(ext) => builder = ext.finish(),
            BlockBuild::ApplyExtrinsicResult { .. } => unreachable!(),
            BlockBuild::InherentExtrinsics(ext) => {
                builder = ext.inject_inherents(inherents::InherentData { timestamp: 1234 });
            }
            BlockBuild::StorageGet(get) => {
                let value = genesis_storage
                    .value(get.key().as_ref())
                    .map(|value| (iter::once(value.to_vec()), TrieEntryVersion::V0));
                builder = get.inject_value(value);
            }
            BlockBuild::ClosestDescendantMerkleValue(req) => {
                builder = req.resume_unknown();
            }
            BlockBuild::NextKey(req) => {
                let mut search = branch_search::start_branch_search(branch_search::Config {
                    key_before: req.key().collect::<Vec<_>>().into_iter(),
                    or_equal: req.or_equal(),
                    prefix: req.prefix().collect::<Vec<_>>().into_iter(),
                    no_branch_search: !req.branch_nodes(),
                });

                let next_key = loop {
                    match search {
                        branch_search::BranchSearch::Found {
                            branch_trie_node_key,
                        } => break branch_trie_node_key,
                        branch_search::BranchSearch::NextKey(req) => {
                            let result = genesis_storage.next_key(
                                &req.key_before().collect::<Vec<_>>(),
                                req.or_equal(),
                                &req.prefix().collect::<Vec<_>>(),
                            );
                            search = req.inject(result.map(|key| key.into_iter()));
                        }
                    }
                };

                builder = req.inject_key(next_key.map(|nk| nk.into_iter()));
            }
        }
    }
}

#[test]
fn filled_database_belongs_to_the_chain() {
    let json = example_chain_specs();
    let chain_specs = ChainSpec::from_json_bytes(json.as_bytes()).unwrap();
    let chain_info = chain_specs.to_chain_information().unwrap().0;
    let genesis_header = chain_info
        .as_ref()
        .finalized_block_header
        .scale_encoding_vec(4);

    let empty = match full_sqlite::open(full_sqlite::Config {
        ty: full_sqlite::ConfigTy::Memory,
        block_number_bytes: 4,
    }) {
        Ok(full_sqlite::DatabaseOpen::Empty(empty)) => empty,
        _ => panic!(),
    };
    let opened = on_database_found(DatabaseFound::Empty, &genesis_header).unwrap();
    assert_eq!(opened, OpenedDatabase::Initialize);
    assert!(!database_existed(opened));

    let storage = genesis_storage(json.as_bytes()).unwrap().unwrap();
    let content = genesis_content(Some(0));
    let database = empty
        .initialize(
            chain_info.as_ref(),
            content.body.iter().map(|extrinsic| &extrinsic[..]),
            content.justification,
            (0..storage.len()).map(|index| storage.item(index)),
            content.state_version,
        )
        .unwrap();

    let first_block = database.block_hash_by_number(0).unwrap().next();
    assert_eq!(first_block, Some(header::hash(&genesis_header)));
    assert_eq!(
        database.finalized_block_hash().unwrap(),
        header::hash(&genesis_header)
    );
    let opened = on_database_found(DatabaseFound::Existing(first_block), &genesis_header).unwrap();
    assert_eq!(opened, OpenedDatabase::UseExisting);
    assert!(database_existed(opened));
}
