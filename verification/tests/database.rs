//! Opening databases.

use full_node::database::{
    database_existed, genesis_content, genesis_state_version, on_database_found, on_database_found_with,
    runtime_source, DatabaseError, DatabaseFound, HeapPagesError, OpenedDatabase, Opening,
    OpeningAction, OpeningEvent, RuntimeSourceError, PROGRESS_DELAY_MILLIS,
};
use full_node::genesis::GenesisStorage;

fn genesis_header() -> Vec<u8> {
    let mut header = vec![7; 32];
    header.push(0x14);
    header.extend([1; 32]);
    header.extend([2; 32]);
    header.push(0);
    header
}

const GENESIS_HASH: [u8; 32] = [
    209, 119, 27, 233, 13, 95, 91, 190, 130, 248, 8, 214, 174, 187, 131, 221, 195, 22, 83, 16, 208,
    234, 226, 88, 67, 254, 154, 173, 247, 148, 35, 216,
];

fn storage(items: Vec<(&[u8], &[u8])>) -> GenesisStorage {
    GenesisStorage::new(
        items
            .into_iter()
            .map(|(key, value)| (key.to_vec(), value.to_vec()))
            .collect(),
    )
}

#[test]
fn database_of_the_chain_is_used() {
    assert_eq!(
        on_database_found(
            DatabaseFound::Existing(Some(GENESIS_HASH)),
            &genesis_header()
        ),
        Ok(OpenedDatabase::UseExisting)
    );
}

#[test]
fn database_of_another_chain_is_refused() {
    let mut other = GENESIS_HASH;
    other[31] ^= 1;
    assert_eq!(
        on_database_found(DatabaseFound::Existing(Some(other)), &genesis_header()),
        Err(DatabaseError::ChainMismatch)
    );
    assert_eq!(
        on_database_found_with(DatabaseFound::Existing(Some([3; 32])), &[4; 32]),
        Err(DatabaseError::ChainMismatch)
    );
}

#[test]
fn database_without_first_block_is_refused() {
    assert_eq!(
        on_database_found(DatabaseFound::Existing(None), &genesis_header()),
        Err(DatabaseError::NoGenesisBlock)
    );
}

#[test]
fn empty_database_is_initialized() {
    assert_eq!(
        on_database_found(DatabaseFound::Empty, &genesis_header()),
        Ok(OpenedDatabase::Initialize)
    );
}

#[test]
fn only_a_database_with_data_existed() {
    assert!(database_existed(OpenedDatabase::UseExisting));
    assert!(!database_existed(OpenedDatabase::Initialize));
}

#[test]
fn runtime_is_found_in_the_storage() {
    let source = match runtime_source(&storage(vec![(&b":code"[..], &[1, 2, 3][..])])) {
        Ok(source) => source,
        Err(_) => panic!(),
    };
    assert_eq!(source.code, vec![1, 2, 3]);
    assert_eq!(source.heap_pages, 2048);
}

#[test]
fn heap_pages_are_read_from_the_storage() {
    let source = match runtime_source(&storage(vec![
        (&b":code"[..], &[][..]),
        (&b":heappages"[..], &[4, 3, 2, 1, 0, 0, 0, 0][..]),
    ])) {
        Ok(source) => source,
        Err(_) => panic!(),
    };
    assert_eq!(source.heap_pages, 0x01020304);
}

#[test]
fn runtime_without_code_is_refused() {
    assert_eq!(
        runtime_source(&storage(vec![(&b":heappages"[..], &[][..])])).err(),
        Some(RuntimeSourceError::NoCode)
    );
}

#[test]
fn bad_heap_pages_are_refused() {
    let with_pages = |pages: &[u8]| {
        runtime_source(&storage(vec![(&b":code"[..], &[0][..]), (&b":heappages"[..], pages)]))
            .err()
    };
    assert_eq!(
        with_pages(&[1, 0, 0, 0]),
        Some(RuntimeSourceError::HeapPages(HeapPagesError::WrongLength))
    );
    assert_eq!(
        with_pages(&[]),
        Some(RuntimeSourceError::HeapPages(HeapPagesError::WrongLength))
    );
    assert_eq!(
        with_pages(&[0, 0, 0, 0, 1, 0, 0, 0]),
        Some(RuntimeSourceError::HeapPages(HeapPagesError::TooLarge))
    );
    assert_eq!(
        with_pages(&[0, 0, 0, 0, 0, 0, 0, 128]),
        Some(RuntimeSourceError::HeapPages(HeapPagesError::TooLarge))
    );
    assert_eq!(with_pages(&[255, 255, 255, 255, 0, 0, 0, 0]), None);
}

#[test]
fn state_version_is_zero_unless_specified() {
    assert_eq!(genesis_state_version(None), 0);
    assert_eq!(genesis_state_version(Some(1)), 1);
}

#[test]
fn database_is_opened_here_without_a_thread() {
    let mut opening = Opening::new(true);
    assert!(matches!(
        opening.on_event(OpeningEvent::ThreadSpawn { success: false }),
        OpeningAction::OpenHere
    ));
    assert!(matches!(
        opening.on_event(OpeningEvent::ThreadSpawn { success: true }),
        OpeningAction::Wait
    ));
    assert!(matches!(
        opening.on_event(OpeningEvent::Opened),
        OpeningAction::Return
    ));
    assert_eq!(PROGRESS_DELAY_MILLIS, 200);
}

#[test]
fn progress_icons_take_turns() {
    let mut opening = Opening::new(true);
    for icon in ['-', '\\', '|', '/', '-', '\\'] {
        match opening.on_event(OpeningEvent::Timer) {
            OpeningAction::Print(text) => {
                assert_eq!(text, format!("    Opening database... {icon}\r"))
            }
            _ => panic!(),
        }
    }
}

#[test]
fn hidden_progress_prints_nothing() {
    let mut opening = Opening::new(false);
    assert!(matches!(
        opening.on_event(OpeningEvent::Timer),
        OpeningAction::Wait
    ));
}

#[test]
fn genesis_block_has_neither_body_nor_justification() {
    let content = genesis_content(Some(1));
    assert!(content.body.is_empty());
    assert_eq!(content.justification, None);
    assert_eq!(content.state_version, 1);
    assert_eq!(genesis_content(None).state_version, 0);
}
