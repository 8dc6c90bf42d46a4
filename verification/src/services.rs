//! What the services of the node are told of each chain.

use crate::chain::ChainSpec;
use crate::header;
use crate::network;
use vstd::prelude::*;

verus! {

/// Share of a slot that authoring a block may take, as a fraction of the range of `u16`: about two
/// thirds.
pub const SLOT_DURATION_AUTHOR_RATIO: u16 = 43691;

/// A chain that the node runs.
#[derive(Clone, Copy, Debug, PartialEq, Eq, Structural)]
pub enum ChainSlot {
    /// The chain that the user asked for.
    Main,
    /// Its relay chain.
    Relay,
}

/// Index of a chain in the network service.
pub fn network_index(slot: ChainSlot) -> (r: usize)
    ensures
        r == match slot {
            ChainSlot::Main => 0usize,
            ChainSlot::Relay => 1usize,
        },
{
    match slot {
        ChainSlot::Main => 0,
        ChainSlot::Relay => 1,
    }
}

/// Number of bytes of a block number, for each use of it.
#[derive(Clone, Copy, Debug, PartialEq, Eq, Structural)]
pub struct BlockNumberBytes {
    /// In the database, and in the header whose hash the database must start with.
    pub database: u8,
    /// In the network protocol.
    pub network: u8,
    /// In the genesis header whose hash the network service is given.
    pub network_genesis: u8,
    /// In the finalized header that the network service is given the number of.
    pub best_block: u8,
    /// In the consensus service, and in the genesis header whose hash it is given.
    pub consensus: u8,
}

/// Number of bytes of a block number for each use of it, given that of the main chain and that of
/// the relay chain. The headers of the relay chain that the network service is told of are read
/// with the number of bytes of the main chain.
pub open spec fn block_number_bytes_of(slot: ChainSlot, main: u8, relay: u8) -> BlockNumberBytes {
    match slot {
        ChainSlot::Main => BlockNumberBytes {
            database: main,
            network: main,
            network_genesis: main,
            best_block: main,
            consensus: main,
        },
        ChainSlot::Relay => BlockNumberBytes {
            database: relay,
            network: relay,
            network_genesis: main,
            best_block: main,
            consensus: relay,
        },
    }
}

/// Number of bytes of a block number for each use of it.
pub fn block_number_bytes(slot: ChainSlot, main: u8, relay: u8) -> (r: BlockNumberBytes)
    ensures
        r == block_number_bytes_of(slot, main, relay),
{
    let headers = main;
    let own = match slot {
        ChainSlot::Main => main,
        ChainSlot::Relay => relay,
    };
    BlockNumberBytes {
        database: own,
        network: own,
        network_genesis: headers,
        best_block: headers,
        consensus: own,
    }
}

/// Where the network service stands on a chain when it starts.
pub struct ChainState {
    /// Whether the finality of the chain comes from GrandPa.
    pub has_grandpa_protocol: bool,
    /// Header of the genesis block, encoded with the number of bytes for the network service.
    pub genesis_header: Vec<u8>,
    /// Hash of the latest finalized block of the database.
    pub finalized_hash: [u8; 32],
    /// Header of that block, encoded.
    pub finalized_header: Vec<u8>,
}

/// What the network service is told of a chain.
pub struct NetworkChain {
    /// Tells apart chains that have the same genesis block.
    pub fork_id: Option<String>,
    /// Number of bytes of a block number.
    pub block_number_bytes: usize,
    /// Whether the finality of the chain comes from GrandPa.
    pub has_grandpa_protocol: bool,
    /// Hash of the genesis block.
    pub genesis_block_hash: [u8; 32],
    /// Number and hash of the best block.
    pub best_block: (u64, [u8; 32]),
    /// Nodes to connect to first.
    pub bootstrap_nodes: Vec<network::PeerAddress>,
}

/// Why the network service cannot be told of a chain.
pub enum NetworkChainError {
    /// The header of the latest finalized block is not valid.
    FinalizedHeader,
    /// A bootstrap node cannot be used.
    Bootnode(network::BootnodeError),
}

/// The text of an optional string.
pub open spec fn optional_text(text: Option<String>) -> Option<Seq<char>> {
    match text {
        Some(text) => Some(text@),
        None => None,
    }
}

/// Whether `r` is what the network service is told of the chain of the given specification. The
/// header of the finalized block has to be valid before bootstrap nodes are looked at.
pub open spec fn is_network_chain(
    slot: ChainSlot,
    spec: ChainSpec,
    main_bytes: u8,
    state: ChainState,
    additional: Seq<(Seq<u8>, Seq<u8>)>,
    r: Result<NetworkChain, NetworkChainError>,
) -> bool {
    let bytes = block_number_bytes_of(slot, main_bytes, spec.block_number_bytes);
    match header::decoded_header(state.finalized_header@, bytes.best_block as usize) {
        None => r matches Err(NetworkChainError::FinalizedHeader),
        Some((_, number)) => match r {
            Ok(chain) => {
                &&& optional_text(chain.fork_id) == optional_text(spec.fork_id)
                &&& chain.block_number_bytes == spec.block_number_bytes
                &&& chain.has_grandpa_protocol == state.has_grandpa_protocol
                &&& chain.genesis_block_hash@ == header::header_hash(state.genesis_header@)
                &&& chain.best_block == (number, state.finalized_hash)
                &&& network::is_bootstrap_list(
                    spec.boot_nodes@,
                    additional,
                    Ok(network::peers_view(chain.bootstrap_nodes@)),
                )
            },
            Err(NetworkChainError::Bootnode(err)) => network::is_bootstrap_list(
                spec.boot_nodes@,
                additional,
                Err(err@),
            ),
            Err(NetworkChainError::FinalizedHeader) => false,
        },
    }
}

/// Puts together what the network service is told of a chain, given the number of the latest
/// finalized block, if its header is valid, the hash of the genesis block, and the nodes to
/// connect to first, if all of them can be used.
pub fn network_chain_with(
    spec: &ChainSpec,
    state: &ChainState,
    finalized_number: Option<u64>,
    genesis_block_hash: [u8; 32],
    peers: Result<Vec<network::PeerAddress>, network::BootnodeError>,
) -> (r: Result<NetworkChain, NetworkChainError>)
    ensures
        match (finalized_number, peers) {
            (None, _) => r matches Err(NetworkChainError::FinalizedHeader),
            (Some(_), Err(err)) => r == Err::<NetworkChain, NetworkChainError>(
                NetworkChainError::Bootnode(err),
            ),
            (Some(number), Ok(bootstrap_nodes)) => {
                &&& r matches Ok(chain)
                &&& optional_text(chain.fork_id) == optional_text(spec.fork_id)
                &&& chain.block_number_bytes == spec.block_number_bytes
                &&& chain.has_grandpa_protocol == state.has_grandpa_protocol
                &&& chain.genesis_block_hash == genesis_block_hash
                &&& chain.best_block == (number, state.finalized_hash)
                &&& chain.bootstrap_nodes == bootstrap_nodes
            },
        },
{
    let number: u64 = match finalized_number {
        Some(number) => number,
        None => return Err(NetworkChainError::FinalizedHeader),
    };
    match peers {
        Ok(bootstrap_nodes) => Ok(
            NetworkChain {
                fork_id: match &spec.fork_id {
                    Some(fork_id) => Some(fork_id.clone()),
                    None => None,
                },
                block_number_bytes: spec.block_number_bytes as usize,
                has_grandpa_protocol: state.has_grandpa_protocol,
                genesis_block_hash,
                best_block: (number, state.finalized_hash),
                bootstrap_nodes,
            },
        ),
        Err(err) => Err(NetworkChainError::Bootnode(err)),
    }
}

/// Puts together what the network service is told of a chain. `main_bytes` is the number of bytes
/// of a block number of the main chain, and `spec` the specification of the chain in `slot`.
pub fn network_chain(
    slot: ChainSlot,
    spec: &ChainSpec,
    main_bytes: u8,
    state: &ChainState,
    additional: Vec<network::PeerAddress>,
) -> (r: Result<NetworkChain, NetworkChainError>)
    ensures
        is_network_chain(
            slot,
            *spec,
            main_bytes,
            *state,
            network::peers_view(additional@),
            r,
        ),
{
    let bytes = block_number_bytes(slot, main_bytes, spec.block_number_bytes);
    let finalized_number = match header::decode(
        state.finalized_header.as_slice(),
        bytes.best_block,
    ) {
        Some(header) => Some(header.number),
        None => None,
    };
    network_chain_with(
        spec,
        state,
        finalized_number,
        header::hash(state.genesis_header.as_slice()),
        network::bootstrap_nodes(&spec.boot_nodes, additional),
    )
}

/// A chain specification, and where the network service stands on the chain.
pub struct ChainInput<'a> {
    /// The chain specification.
    pub spec: &'a ChainSpec,
    /// Where the network service stands on the chain.
    pub state: &'a ChainState,
}

/// Puts together what the network service is told of all chains: the main chain with the nodes
/// that the user added, then the relay chain, if there is one, without them. Fails on the first
/// thing that cannot be used.
pub fn network_chains(
    main: &ChainInput<'_>,
    relay: Option<&ChainInput<'_>>,
    additional: Vec<network::PeerAddress>,
) -> (r: Result<Vec<NetworkChain>, NetworkChainError>)
    ensures
        ({
            let bytes = main.spec.block_number_bytes;
            let added = network::peers_view(additional@);
            let none = Seq::<(Seq<u8>, Seq<u8>)>::empty();
            match r {
                Ok(chains) => {
                    &&& chains@.len() == if relay is Some {
                        2nat
                    } else {
                        1nat
                    }
                    &&& is_network_chain(
                        ChainSlot::Main,
                        *main.spec,
                        bytes,
                        *main.state,
                        added,
                        Ok(chains@[0]),
                    )
                    &&& relay matches Some(relay) ==> is_network_chain(
                        ChainSlot::Relay,
                        *relay.spec,
                        bytes,
                        *relay.state,
                        none,
                        Ok(chains@[1]),
                    )
                },
                Err(err) => {
                    ||| is_network_chain(
                        ChainSlot::Main,
                        *main.spec,
                        bytes,
                        *main.state,
                        added,
                        Err(err),
                    )
                    ||| {
                        &&& exists|chain: NetworkChain| #[trigger]
                            is_network_chain(
                                ChainSlot::Main,
                                *main.spec,
                                bytes,
                                *main.state,
                                added,
                                Ok(chain),
                            )
                        &&& relay matches Some(relay) && is_network_chain(
                            ChainSlot::Relay,
                            *relay.spec,
                            bytes,
                            *relay.state,
                            none,
                            Err(err),
                        )
                    }
                },
            }
        }),
{
    let bytes = main.spec.block_number_bytes;
    let first = match network_chain(ChainSlot::Main, main.spec, bytes, main.state, additional) {
        Ok(chain) => chain,
        Err(err) => return Err(err),
    };
    let ghost main_chain = first;
    let mut chains: Vec<NetworkChain> = Vec::new();
    chains.push(first);
    if let Some(relay) = relay {
        let none: Vec<network::PeerAddress> = Vec::new();
        assert(network::peers_view(none@) =~= Seq::<(Seq<u8>, Seq<u8>)>::empty());
        match network_chain(ChainSlot::Relay, relay.spec, bytes, relay.state, none) {
            Ok(chain) => {
                chains.push(chain);
            },
            Err(err) => {
                assert(is_network_chain(
                    ChainSlot::Main,
                    *main.spec,
                    bytes,
                    *main.state,
                    network::peers_view(additional@),
                    Ok(main_chain),
                ));
                return Err(err);
            },
        }
    }
    Ok(chains)
}

/// What the consensus service of a chain is told.
#[derive(Clone, Copy, Debug)]
pub struct ConsensusConfig {
    /// Hash of the genesis block.
    pub genesis_block_hash: [u8; 32],
    /// Index of the chain in the network service.
    pub network_index: usize,
    /// Number of bytes of a block number.
    pub block_number_bytes: usize,
    /// Share of a slot that authoring a block may take.
    pub slot_duration_author_ratio: u16,
}

/// Puts together what the consensus service of a chain is told, out of the number of bytes of a
/// block number of this chain and of the hash of its genesis block.
pub fn consensus_config_with(slot: ChainSlot, own_bytes: u8, genesis_block_hash: [u8; 32]) -> (r:
    ConsensusConfig)
    ensures
        r.genesis_block_hash == genesis_block_hash,
        r.network_index == match slot {
            ChainSlot::Main => 0usize,
            ChainSlot::Relay => 1usize,
        },
        r.block_number_bytes == own_bytes,
        r.slot_duration_author_ratio == SLOT_DURATION_AUTHOR_RATIO,
{
    ConsensusConfig {
        genesis_block_hash,
        network_index: network_index(slot),
        block_number_bytes: own_bytes as usize,
        slot_duration_author_ratio: SLOT_DURATION_AUTHOR_RATIO,
    }
}

/// Puts together what the consensus service of a chain is told, out of the number of bytes of a
/// block number of this chain and of its genesis header, encoded with that number of bytes.
pub fn consensus_config(slot: ChainSlot, own_bytes: u8, genesis_header: &[u8]) -> (r:
    ConsensusConfig)
    ensures
        r.genesis_block_hash@ == header::header_hash(genesis_header@),
        r.network_index == match slot {
            ChainSlot::Main => 0usize,
            ChainSlot::Relay => 1usize,
        },
        r.block_number_bytes == own_bytes,
        r.slot_duration_author_ratio == SLOT_DURATION_AUTHOR_RATIO,
{
    consensus_config_with(slot, own_bytes, header::hash(genesis_header))
}

/// Who listens to the events of the network.
#[derive(Clone, Copy, Debug, PartialEq, Eq, Structural)]
pub enum Listener {
    /// The consensus service of a chain.
    Consensus(ChainSlot),
    /// The task that keeps the node alive and prints the informant.
    MainTask,
}

/// Those who listen to the events of the network, in the order in which they are handed a
/// receiver.
pub open spec fn listeners_of(has_relay: bool) -> Seq<Listener> {
    if has_relay {
        seq![
            Listener::Consensus(ChainSlot::Main),
            Listener::Consensus(ChainSlot::Relay),
            Listener::MainTask,
        ]
    } else {
        seq![Listener::Consensus(ChainSlot::Main), Listener::MainTask]
    }
}

/// Number of receivers of events that the network service is asked for.
pub fn num_events_receivers(has_relay: bool) -> (r: usize)
    ensures
        r == 2 + if has_relay {
            1int
        } else {
            0int
        },
{
    2 + if has_relay {
        1
    } else {
        0
    }
}

/// Those who listen to the events of the network, in the order in which they are handed a
/// receiver.
pub fn listeners(has_relay: bool) -> (r: Vec<Listener>)
    ensures
        r@ == listeners_of(has_relay),
{
    let mut r: Vec<Listener> = Vec::new();
    r.push(Listener::Consensus(ChainSlot::Main));
    if has_relay {
        r.push(Listener::Consensus(ChainSlot::Relay));
    }
    r.push(Listener::MainTask);
    assert(r@ =~= listeners_of(has_relay));
    r
}

/// Every receiver of events is handed to someone, and nobody is handed two.
pub proof fn every_receiver_has_one_listener(has_relay: bool)
    ensures
        listeners_of(has_relay).len() == 2 + if has_relay {
            1int
        } else {
            0int
        },
        listeners_of(has_relay).no_duplicates(),
{
}

/// Each chain has the number of bytes of its own specification in the database, in the network
/// protocol and in the consensus service. In the headers that the network service is told of, both
/// chains have that of the main chain.
pub proof fn number_of_bytes_is_that_of_the_chain(main: u8, relay: u8)
    ensures
        block_number_bytes_of(ChainSlot::Main, main, relay).database == main,
        block_number_bytes_of(ChainSlot::Main, main, relay).network == main,
        block_number_bytes_of(ChainSlot::Main, main, relay).consensus == main,
        block_number_bytes_of(ChainSlot::Relay, main, relay).database == relay,
        block_number_bytes_of(ChainSlot::Relay, main, relay).network == relay,
        block_number_bytes_of(ChainSlot::Relay, main, relay).consensus == relay,
        forall|slot: ChainSlot|
            (#[trigger] block_number_bytes_of(slot, main, relay)).network_genesis == main
                && block_number_bytes_of(slot, main, relay).best_block == main,
{
}

/// The network service is told of a chain what its specification and its database hold: the fork,
/// the number of bytes, the hash of the genesis block, the latest finalized block, and the nodes to
/// connect to first. It is told of a chain if and only if the header of this block is valid and all
/// bootstrap nodes can be used. The header is the first thing to fail, and then the first bootstrap
/// node that cannot be used.
pub proof fn network_service_is_told_the_truth(
    slot: ChainSlot,
    spec: ChainSpec,
    main_bytes: u8,
    state: ChainState,
    additional: Seq<(Seq<u8>, Seq<u8>)>,
    r: Result<NetworkChain, NetworkChainError>,
    k: int,
)
    requires
        is_network_chain(slot, spec, main_bytes, state, additional, r),
        slot == ChainSlot::Main ==> main_bytes == spec.block_number_bytes,
    ensures
        r matches Err(NetworkChainError::FinalizedHeader) <==> header::decoded_header(
            state.finalized_header@,
            main_bytes as usize,
        ) is None,
        r matches Ok(chain) ==> {
            &&& (chain.fork_id is Some <==> spec.fork_id is Some)
            &&& (chain.fork_id matches Some(a) ==> spec.fork_id matches Some(b) && a@ == b@)
            &&& chain.block_number_bytes == spec.block_number_bytes
            &&& chain.has_grandpa_protocol == state.has_grandpa_protocol
            &&& chain.genesis_block_hash@ == header::header_hash(state.genesis_header@)
            &&& chain.best_block.1 == state.finalized_hash
            &&& header::decoded_header(
                state.finalized_header@,
                main_bytes as usize,
            ) matches Some((_, number)) && chain.best_block.0 == number
            &&& chain.bootstrap_nodes@.len() == spec.boot_nodes@.len() + additional.len()
        },
        r matches Ok(chain) ==> forall|i: int|
            0 <= i < spec.boot_nodes@.len() ==> network::resolved(#[trigger] spec.boot_nodes@[i])
                == Ok::<(Seq<u8>, Seq<u8>), network::BootnodeErrorView>(
                chain.bootstrap_nodes@[i]@,
            ),
        r matches Ok(chain) ==> forall|i: int|
            0 <= i < additional.len() ==> #[trigger] additional[i] == chain.bootstrap_nodes@[
            spec.boot_nodes@.len() + i]@,
        header::decoded_header(state.finalized_header@, main_bytes as usize) is Some && (forall|
            i: int,
        |
            0 <= i < spec.boot_nodes@.len() ==> network::resolved(
                #[trigger] spec.boot_nodes@[i],
            ) is Ok) ==> r is Ok,
        header::decoded_header(state.finalized_header@, main_bytes as usize) is Some && 0 <= k
            < spec.boot_nodes@.len() && network::resolved(spec.boot_nodes@[k]) is Err && (forall|
            j: int,
        |
            0 <= j < k ==> network::resolved(#[trigger] spec.boot_nodes@[j]) is Ok) ==> (
        r matches Err(NetworkChainError::Bootnode(err)) && network::resolved(spec.boot_nodes@[k])
            == Err::<(Seq<u8>, Seq<u8>), network::BootnodeErrorView>(err@)),
{
    if let Ok(chain) = r {
        let list = network::peers_view(chain.bootstrap_nodes@);
        network::bootstrap_list_holds_all_entries(spec.boot_nodes@, additional, Ok(list), k);
        assert forall|i: int| 0 <= i < spec.boot_nodes@.len() implies network::resolved(
            #[trigger] spec.boot_nodes@[i],
        ) == Ok::<(Seq<u8>, Seq<u8>), network::BootnodeErrorView>(chain.bootstrap_nodes@[i]@) by {
            assert(network::resolved_all(spec.boot_nodes@)[i] == network::resolved(
                spec.boot_nodes@[i],
            ));
            assert(list[i] == chain.bootstrap_nodes@[i]@);
        }
        assert forall|i: int| 0 <= i < additional.len() implies #[trigger] additional[i]
            == chain.bootstrap_nodes@[spec.boot_nodes@.len() + i]@ by {
            assert(list.skip(spec.boot_nodes@.len() as int)[i] == list[spec.boot_nodes@.len() + i]);
        }
    }
    if let Err(NetworkChainError::Bootnode(err)) = r {
        network::bootstrap_list_holds_all_entries(spec.boot_nodes@, additional, Err(err@), k);
    }
}

/// The consensus service of the chain listens first and the main task last. That of the relay chain
/// listens if and only if there is one, and nobody else does.
pub proof fn these_listen_to_the_network(has_relay: bool)
    ensures
        listeners_of(has_relay).len() >= 2,
        listeners_of(has_relay)[0] == Listener::Consensus(ChainSlot::Main),
        listeners_of(has_relay).last() == Listener::MainTask,
        listeners_of(has_relay).contains(Listener::Consensus(ChainSlot::Relay)) <==> has_relay,
        listeners_of(has_relay).len() == if has_relay {
            3nat
        } else {
            2nat
        },
{
    if has_relay {
        assert(listeners_of(has_relay)[1] == Listener::Consensus(ChainSlot::Relay));
    }
}

/// A text that may be missing is told by its characters.
pub proof fn optional_text_is_kept(text: Option<String>)
    ensures
        optional_text(text) is Some <==> text is Some,
        text matches Some(text) ==> optional_text(Some(text)) == Some(text@),
{
}

} // verus!
