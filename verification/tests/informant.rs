//! The informant line.

use full_node::cli::{ColorChoice, Output};
use full_node::informant::{
    informant_fits, informant_interval, informant_line, max_line_width, overwriting,
    InformantState, KnownBest, NetworkEvent, SyncState,
};

fn sync() -> SyncState {
    SyncState {
        best_block_number: 50,
        best_block_hash: [1; 32],
        finalized_block_number: 40,
        finalized_block_hash: [2; 32],
    }
}

fn state(sync: &SyncState) -> InformantState<'_> {
    InformantState {
        color: ColorChoice::Never,
        chain_name: "Polkadot",
        relay_chain: None,
        terminal_width: None,
        num_peers: 3,
        num_connections: 7,
        sync,
        network_known_best: Some(100),
    }
}

fn announce(chain_index: usize, scale_encoded_header: Vec<u8>) -> NetworkEvent {
    NetworkEvent::BlockAnnounce {
        chain_index,
        scale_encoded_header,
    }
}

fn connected(chain_index: usize, best_block_number: u64) -> NetworkEvent {
    NetworkEvent::Connected {
        chain_index,
        best_block_number,
    }
}

/// Header of the block of number sixteen or less.
fn encoded_header(number: u8) -> Vec<u8> {
    let mut header = vec![7; 32];
    header.push(number * 4);
    header.extend([1; 32]);
    header.extend([2; 32]);
    header.push(0);
    header
}

#[test]
fn known_best_starts_empty_and_keeps_the_maximum() {
    let mut best = KnownBest::new();
    assert_eq!(best.number(), None);
    for (reported, expected) in [
        (None, None),
        (Some(5), Some(5)),
        (Some(3), Some(5)),
        (None, Some(5)),
        (Some(5), Some(5)),
        (Some(8), Some(8)),
    ] {
        best.observe(reported);
        assert_eq!(best.number(), expected);
    }
}

#[test]
fn zero_is_a_known_best() {
    let mut best = KnownBest::new();
    best.observe(Some(0));
    assert_eq!(best.number(), Some(0));
}

#[test]
fn announces_and_connections_on_the_first_chain_count() {
    let mut best = KnownBest::new();
    best.on_network_event(&announce(0, encoded_header(5)), 4);
    assert_eq!(best.number(), Some(5));
    best.on_network_event(&announce(0, encoded_header(4)), 4);
    assert_eq!(best.number(), Some(5));
    best.on_network_event(&connected(0, 9), 4);
    assert_eq!(best.number(), Some(9));
    best.on_network_event(&connected(0, 8), 4);
    assert_eq!(best.number(), Some(9));
}

#[test]
fn other_chains_and_bad_headers_do_not_count() {
    let mut best = KnownBest::new();
    best.on_network_event(&announce(1, encoded_header(5)), 4);
    best.on_network_event(&connected(1, 9), 4);
    best.on_network_event(&announce(0, vec![1, 2, 3]), 4);
    best.on_network_event(&NetworkEvent::Other, 4);
    assert_eq!(best.number(), None);
}

#[test]
fn only_the_informant_has_an_interval() {
    assert_eq!(informant_interval(Output::Informant), Some(100));
    assert_eq!(informant_interval(Output::Logs), None);
    assert_eq!(informant_interval(Output::LogsJson), None);
    assert_eq!(informant_interval(Output::Silent), None);
}

#[test]
fn lines_are_as_wide_as_the_terminal() {
    assert_eq!(max_line_width(Some(132)), 132);
    assert_eq!(max_line_width(None), 80);
    assert_eq!(max_line_width(Some(0)), 0);
}

#[test]
fn line_shows_the_state() {
    let sync = sync();
    assert_eq!(
        informant_line(&state(&sync)).unwrap(),
        "    Polkadot   #50 [=============>               ] #100 (🔗  7) (🌐   7)   \r"
    );
}

#[test]
fn line_shows_the_relay_chain() {
    let sync = sync();
    let mut state = state(&sync);
    state.chain_name = "Statemint";
    state.relay_chain = Some(("Polkadot", 1234));
    state.terminal_width = Some(90);
    state.network_known_best = None;
    let line = informant_line(&state).unwrap();
    assert!(line.starts_with("    Statemint   #50 (Polkadot #1234) [="));
    assert!(line.ends_with("=] ? (🔗  7) (🌐   7)   \r"));
}

#[test]
fn line_is_that_of_its_fields() {
    let sync = sync();
    let mut state = state(&sync);
    state.color = ColorChoice::Always;
    state.relay_chain = Some(("Kusama", 99));
    state.terminal_width = Some(120);
    state.num_connections = 12345;
    let expected = smoldot::informant::InformantLine {
        enable_colors: true,
        chain_name: "Polkadot",
        relay_chain: Some(smoldot::informant::RelayChain {
            chain_name: "Kusama",
            best_number: 99,
        }),
        max_line_width: 120,
        num_peers: 3,
        num_network_connections: 12345,
        network_known_best: Some(100),
        best_number: 50,
        best_hash: &[1; 32],
        finalized_number: 40,
        finalized_hash: &[2; 32],
    }
    .to_string();
    assert_eq!(informant_line(&state).unwrap(), format!("{expected}\r"));
    assert!(expected.contains("\x1b[36mPolkadot\x1b[0m"));
}

#[test]
fn narrow_terminals_have_no_line() {
    let sync = sync();
    let mut state = state(&sync);
    // In front of the bar 25 columns are set aside, behind it 26.
    state.terminal_width = Some(51);
    assert!(!informant_fits(&state));
    assert_eq!(informant_line(&state), None);
    state.terminal_width = Some(52);
    assert!(informant_fits(&state));
    assert!(informant_line(&state).unwrap().contains("[>]"));
    state.terminal_width = Some(0);
    assert_eq!(informant_line(&state), None);
}

#[test]
fn wide_numbers_leave_less_room() {
    let sync = sync();
    let mut state = state(&sync);
    state.num_connections = 12345;
    state.relay_chain = Some(("é", 1));
    state.network_known_best = None;
    // Eight characters, two bytes and 27 columns in front of the bar; 26 columns behind it.
    state.terminal_width = Some(63);
    assert!(!informant_fits(&state));
    state.terminal_width = Some(64);
    assert!(informant_fits(&state));
    assert!(informant_line(&state).is_some());
}

#[test]
fn lines_overwrite_themselves() {
    assert_eq!(overwriting("abc".to_owned()), "abc\r");
    assert_eq!(overwriting(String::new()), "\r");
}
