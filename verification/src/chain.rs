//! The chain that the node follows, and the relay chain of a parachain.

use vstd::prelude::*;
use vstd::string::*;

verus! {

/// The chain that the user asks for. `P` is the type of paths.
pub enum CliChain<P> {
    /// The Polkadot chain, whose specification is part of the program.
    Polkadot,
    /// The Kusama chain, whose specification is part of the program.
    Kusama,
    /// The Westend chain, whose specification is part of the program.
    Westend,
    /// The chain whose specification is in the file at the given path.
    Custom(P),
}

/// A bootstrap node, as a chain specification lists it.
pub enum Bootnode {
    /// The entry could not be understood.
    UnrecognizedFormat(String),
    /// The address of the node, without the identity of the node, and its identity.
    Parsed {
        /// Address of the node, as text.
        multiaddr: String,
        /// Identity of the node.
        peer_id: Vec<u8>,
    },
}

/// A bootstrap node, as mathematical values.
pub enum BootnodeView {
    /// The entry could not be understood.
    UnrecognizedFormat(Seq<char>),
    /// The address of the node, and its identity.
    Parsed {
        /// Address of the node, as text.
        multiaddr: Seq<char>,
        /// Identity of the node.
        peer_id: Seq<u8>,
    },
}

impl View for Bootnode {
    type V = BootnodeView;

    open spec fn view(&self) -> BootnodeView {
        match self {
            Bootnode::UnrecognizedFormat(raw) => BootnodeView::UnrecognizedFormat(raw@),
            Bootnode::Parsed { multiaddr, peer_id } => BootnodeView::Parsed {
                multiaddr: multiaddr@,
                peer_id: peer_id@,
            },
        }
    }
}

/// What the node reads in a chain specification.
pub struct ChainSpec {
    /// Identifier of the chain. It names directories.
    pub id: String,
    /// Name of the chain, for the user.
    pub name: String,
    /// Tells apart chains that have the same genesis block.
    pub fork_id: Option<String>,
    /// Number of bytes of a block number.
    pub block_number_bytes: u8,
    /// Name of the relay chain, and identifier of this chain on it, if this chain is a parachain.
    pub relay_chain: Option<(String, u32)>,
    /// Bootstrap nodes.
    pub boot_nodes: Vec<Bootnode>,
}

/// What the node reads in a chain specification, as mathematical values.
pub struct ChainSpecView {
    /// Identifier of the chain.
    pub id: Seq<char>,
    /// Name of the chain.
    pub name: Seq<char>,
    /// Tells apart chains that have the same genesis block.
    pub fork_id: Option<Seq<char>>,
    /// Number of bytes of a block number.
    pub block_number_bytes: u8,
    /// Name of the relay chain, and identifier of this chain on it.
    pub relay_chain: Option<(Seq<char>, u32)>,
    /// Bootstrap nodes.
    pub boot_nodes: Seq<BootnodeView>,
}

impl View for ChainSpec {
    type V = ChainSpecView;

    open spec fn view(&self) -> ChainSpecView {
        ChainSpecView {
            id: self.id@,
            name: self.name@,
            fork_id: match self.fork_id {
                Some(fork_id) => Some(fork_id@),
                None => None,
            },
            block_number_bytes: self.block_number_bytes,
            relay_chain: match self.relay_chain {
                Some((name, id)) => Some((name@, id)),
                None => None,
            },
            boot_nodes: Seq::new(self.boot_nodes@.len(), |i: int| self.boot_nodes@[i]@),
        }
    }
}

/// Why no relay chain can be used.
#[derive(Clone, Copy, Debug, PartialEq, Eq, Structural)]
pub enum RelayChainError {
    /// A specification that is part of the program names a relay chain.
    Unexpected,
    /// The relay chain and the chain are one and the same.
    SameChain,
}

/// Name of the file that holds the specification of the relay chain `name`.
pub open spec fn relay_file_name(name: Seq<char>) -> Seq<char> {
    name + seq!['.', 'j', 's', 'o', 'n']
}

/// Determines the file that holds the specification of the relay chain, next to that of the
/// chain. Returns `Ok(None)` if the chain is not a parachain.
pub fn relay_chain_file<P>(chain: &CliChain<P>, spec: &ChainSpec) -> (r: Result<
    Option<String>,
    RelayChainError,
>)
    ensures
        match spec.relay_chain {
            None => r == Ok::<Option<String>, RelayChainError>(None),
            Some((name, _)) => if chain is Custom {
                r matches Ok(Some(file)) && file@ == relay_file_name(name@)
            } else {
                r == Err::<Option<String>, RelayChainError>(RelayChainError::Unexpected)
            },
        },
{
    match &spec.relay_chain {
        None => Ok(None),
        Some((name, _)) => match chain {
            CliChain::Custom(_) => {
                proof {
                    reveal_strlit(".json");
                    assert(".json"@ =~= seq!['.', 'j', 's', 'o', 'n']);
                }
                Ok(Some(name.clone().concat(".json")))
            },
            _ => Err(RelayChainError::Unexpected),
        },
    }
}

/// Makes sure that the relay chain is another chain than the one that the node follows.
pub fn check_distinct(spec: &ChainSpec, relay: &ChainSpec) -> (r: Result<(), RelayChainError>)
    ensures
        r == if spec.id@ == relay.id@ {
            Err::<(), RelayChainError>(RelayChainError::SameChain)
        } else {
            Ok(())
        },
{
    if spec.id == relay.id {
        Err(RelayChainError::SameChain)
    } else {
        Ok(())
    }
}

/// The file of a relay chain has the name of this chain, and `.json` behind it.
pub proof fn relay_file_is_named_after_the_chain(name: Seq<char>)
    ensures
        relay_file_name(name).len() == name.len() + 5,
        relay_file_name(name).take(name.len() as int) == name,
        relay_file_name(name).skip(name.len() as int) == ".json"@,
{
    reveal_strlit(".json");
    assert(relay_file_name(name).take(name.len() as int) =~= name);
    assert(relay_file_name(name).skip(name.len() as int) =~= ".json"@);
}

/// The view of a specification tells all of it.
pub proof fn view_tells_the_whole_specification(a: ChainSpec, b: ChainSpec)
    ensures
        a@ == b@ <==> {
            &&& a.id@ == b.id@
            &&& a.name@ == b.name@
            &&& match (a.fork_id, b.fork_id) {
                (Some(x), Some(y)) => x@ == y@,
                (None, None) => true,
                _ => false,
            }
            &&& a.block_number_bytes == b.block_number_bytes
            &&& match (a.relay_chain, b.relay_chain) {
                (Some((x, i)), Some((y, j))) => x@ == y@ && i == j,
                (None, None) => true,
                _ => false,
            }
            &&& a.boot_nodes@.len() == b.boot_nodes@.len()
            &&& forall|i: int|
                0 <= i < a.boot_nodes@.len() ==> (#[trigger] a.boot_nodes@[i])@
                    == b.boot_nodes@[i]@
        },
{
    if a@ == b@ {
        assert(a@.boot_nodes.len() == b@.boot_nodes.len());
        assert forall|i: int| 0 <= i < a.boot_nodes@.len() implies (#[trigger] a.boot_nodes@[i])@
            == b.boot_nodes@[i]@ by {
            assert(a@.boot_nodes[i] == b@.boot_nodes[i]);
        }
    }
    if a.boot_nodes@.len() == b.boot_nodes@.len() && forall|i: int|
        0 <= i < a.boot_nodes@.len() ==> (#[trigger] a.boot_nodes@[i])@ == b.boot_nodes@[i]@ {
        assert(a@.boot_nodes =~= b@.boot_nodes);
    }
}

/// The view of a bootstrap node tells all of it.
pub proof fn view_tells_the_whole_bootnode(a: Bootnode, b: Bootnode)
    ensures
        a@ == b@ <==> match (a, b) {
            (Bootnode::UnrecognizedFormat(x), Bootnode::UnrecognizedFormat(y)) => x@ == y@,
            (
                Bootnode::Parsed { multiaddr: x, peer_id: p },
                Bootnode::Parsed { multiaddr: y, peer_id: q },
            ) => x@ == y@ && p@ == q@,
            _ => false,
        },
{
}

} // verus!
