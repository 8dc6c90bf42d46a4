//! Identities and addresses of nodes.

use crate::chain::Bootnode;
use vstd::prelude::*;

verus! {

/// The binary form of an address, as `smoldot::libp2p::multiaddr::Multiaddr` parses it, or `None`
/// if it refuses the text.
pub uninterp spec fn multiaddr_bytes(address: Seq<char>) -> Option<Seq<u8>>;

/// Whether `smoldot::libp2p::peer_id::PeerId::from_bytes` accepts the bytes as the identity of a
/// node.
pub uninterp spec fn is_peer_id(bytes: Seq<u8>) -> bool;

/// The Ed25519 public key of a secret key, as `smoldot::libp2p::connection::NoiseKey` has it.
pub uninterp spec fn ed25519_public_key(secret: Seq<u8>) -> Seq<u8>;

/// The text of the `smoldot::libp2p::peer_id::PeerId` that consists of the given bytes.
pub uninterp spec fn peer_id_text(bytes: Seq<u8>) -> Seq<char>;

/// The identity of the node that has an Ed25519 public key: the protobuf encoding of the key, as
/// the data of a multihash that leaves it unchanged.
pub open spec fn ed25519_peer_id(public_key: Seq<u8>) -> Seq<u8> {
    seq![0u8, 36u8, 8u8, 1u8, 18u8, 32u8] + public_key
}

/// Parses an address with the `FromStr` of `smoldot::libp2p::multiaddr::Multiaddr` and takes its
/// binary form. Both are trusted to depend on the text alone.
#[verifier::external_body]
fn parse_multiaddr(address: &str) -> (r: Option<Vec<u8>>)
    ensures
        match r {
            Some(bytes) => multiaddr_bytes(address@) == Some(bytes@),
            None => multiaddr_bytes(address@) is None,
        },
{
    match address.parse::<smoldot::libp2p::multiaddr::Multiaddr>() {
        Ok(parsed) => Some(parsed.to_vec()),
        Err(_) => None,
    }
}

/// Calls `smoldot::libp2p::peer_id::PeerId::from_bytes`. It is trusted to depend on the bytes
/// alone, and to keep them as they are.
#[verifier::external_body]
fn check_peer_id(bytes: Vec<u8>) -> (r: Option<Vec<u8>>)
    ensures
        r is Some <==> is_peer_id(bytes@),
        r matches Some(id) ==> id@ == bytes@,
{
    match smoldot::libp2p::peer_id::PeerId::from_bytes(bytes) {
        Ok(id) => Some(id.into_bytes()),
        Err(_) => None,
    }
}

/// Calls `smoldot::libp2p::connection::NoiseKey::new` and reads the public key of the result. The
/// key pair that the outside code makes up on the way is random. The public key is trusted to
/// depend on the secret key alone.
#[verifier::external_body]
fn public_key(secret: &[u8; 32]) -> (r: [u8; 32])
    ensures
        r@ == ed25519_public_key(secret@),
{
    *smoldot::libp2p::connection::NoiseKey::new(secret).libp2p_public_ed25519_key()
}

/// Calls `smoldot::libp2p::peer_id::PublicKey::into_peer_id` and formats the result. The identity
/// is trusted to be made of the public key as `ed25519_peer_id` says, and its text to depend on
/// its bytes alone.
#[verifier::external_body]
fn format_peer_id(public_key: [u8; 32]) -> (r: String)
    ensures
        r@ == peer_id_text(ed25519_peer_id(public_key@)),
{
    smoldot::libp2p::peer_id::PublicKey::Ed25519(public_key).into_peer_id().to_string()
}

/// The identity of the node that has the given secret key, as text.
pub fn local_peer_id(secret: &[u8; 32]) -> (r: String)
    ensures
        r@ == peer_id_text(ed25519_peer_id(ed25519_public_key(secret@))),
{
    format_peer_id(public_key(secret))
}

/// A node, and where to reach it.
pub struct PeerAddress {
    /// Identity of the node.
    pub peer_id: Vec<u8>,
    /// Address of the node, in its binary form.
    pub multiaddr: Vec<u8>,
}

impl View for PeerAddress {
    type V = (Seq<u8>, Seq<u8>);

    open spec fn view(&self) -> (Seq<u8>, Seq<u8>) {
        (self.peer_id@, self.multiaddr@)
    }
}

/// A list of nodes.
pub open spec fn peers_view(peers: Seq<PeerAddress>) -> Seq<(Seq<u8>, Seq<u8>)> {
    Seq::new(peers.len(), |i: int| peers[i]@)
}

/// Why a bootstrap node of a chain specification cannot be used.
pub enum BootnodeError {
    /// The address, or the whole entry, is not valid.
    Address(String),
    /// The identity of the node is not valid.
    PeerId,
}

/// Why a bootstrap node cannot be used. Addresses stand for themselves.
pub enum BootnodeErrorView {
    /// The address, or the whole entry, is not valid.
    Address(Seq<char>),
    /// The identity of the node is not valid.
    PeerId,
}

impl View for BootnodeError {
    type V = BootnodeErrorView;

    open spec fn view(&self) -> BootnodeErrorView {
        match self {
            BootnodeError::Address(text) => BootnodeErrorView::Address(text@),
            BootnodeError::PeerId => BootnodeErrorView::PeerId,
        }
    }
}

/// The node that an entry of a chain specification stands for, given the binary form of its
/// address, if the address is valid, and whether its identity is.
pub open spec fn resolved_with(node: Bootnode, address: Option<Seq<u8>>, valid_id: bool) -> Result<
    (Seq<u8>, Seq<u8>),
    BootnodeErrorView,
> {
    match node {
        Bootnode::UnrecognizedFormat(raw) => Err(BootnodeErrorView::Address(raw@)),
        Bootnode::Parsed { multiaddr, peer_id } => match address {
            None => Err(BootnodeErrorView::Address(multiaddr@)),
            Some(bytes) => if valid_id {
                Ok((peer_id@, bytes))
            } else {
                Err(BootnodeErrorView::PeerId)
            },
        },
    }
}

/// The node that an entry of a chain specification stands for.
pub open spec fn resolved(node: Bootnode) -> Result<(Seq<u8>, Seq<u8>), BootnodeErrorView> {
    match node {
        Bootnode::UnrecognizedFormat(_) => resolved_with(node, None, false),
        Bootnode::Parsed { multiaddr, peer_id } => resolved_with(
            node,
            multiaddr_bytes(multiaddr@),
            is_peer_id(peer_id@),
        ),
    }
}

/// A node, or an error, as mathematical values.
pub open spec fn peer_result(r: Result<PeerAddress, BootnodeError>) -> Result<
    (Seq<u8>, Seq<u8>),
    BootnodeErrorView,
> {
    match r {
        Ok(peer) => Ok(peer@),
        Err(err) => Err(err@),
    }
}

/// Puts together a node out of an entry of a chain specification, the binary form of its address,
/// if the address is valid, and whether its identity is.
pub fn resolve_bootnode_with(node: &Bootnode, address: Option<Vec<u8>>, valid_id: bool) -> (r:
    Result<PeerAddress, BootnodeError>)
    ensures
        peer_result(r) == resolved_with(
            *node,
            match address {
                Some(bytes) => Some(bytes@),
                None => None,
            },
            valid_id,
        ),
{
    match node {
        Bootnode::UnrecognizedFormat(raw) => Err(BootnodeError::Address(raw.clone())),
        Bootnode::Parsed { multiaddr, peer_id } => match address {
            None => Err(BootnodeError::Address(multiaddr.clone())),
            Some(bytes) => if valid_id {
                Ok(
                    PeerAddress {
                        peer_id: crate::genesis::copy_bytes(peer_id.as_slice()),
                        multiaddr: bytes,
                    },
                )
            } else {
                Err(BootnodeError::PeerId)
            },
        },
    }
}

/// Turns an entry of a chain specification into a node.
pub fn resolve_bootnode(node: &Bootnode) -> (r: Result<PeerAddress, BootnodeError>)
    ensures
        peer_result(r) == resolved(*node),
{
    match node {
        Bootnode::UnrecognizedFormat(_) => resolve_bootnode_with(node, None, false),
        Bootnode::Parsed { multiaddr, peer_id } => {
            let address = parse_multiaddr(multiaddr.as_str());
            let valid_id = check_peer_id(crate::genesis::copy_bytes(peer_id.as_slice())).is_some();
            resolve_bootnode_with(node, address, valid_id)
        },
    }
}

/// Whether `r` is what a list of nodes, some of which may be missing, and a list of further nodes
/// amount to: all of them in order, or the first error.
pub open spec fn is_peer_list(
    found: Seq<Result<(Seq<u8>, Seq<u8>), BootnodeErrorView>>,
    additional: Seq<(Seq<u8>, Seq<u8>)>,
    r: Result<Seq<(Seq<u8>, Seq<u8>)>, BootnodeErrorView>,
) -> bool {
    match r {
        Ok(list) => {
            &&& list.len() == found.len() + additional.len()
            &&& forall|i: int|
                0 <= i < found.len() ==> #[trigger] found[i] == Ok::<
                    (Seq<u8>, Seq<u8>),
                    BootnodeErrorView,
                >(list[i])
            &&& list.skip(found.len() as int) == additional
        },
        Err(err) => exists|k: int|
            {
                &&& 0 <= k < found.len()
                &&& #[trigger] found[k] == Err::<(Seq<u8>, Seq<u8>), BootnodeErrorView>(err)
                &&& forall|j: int| 0 <= j < k ==> (#[trigger] found[j]) is Ok
            },
    }
}

/// The nodes that the entries of a chain specification stand for.
pub open spec fn resolved_all(nodes: Seq<Bootnode>) -> Seq<
    Result<(Seq<u8>, Seq<u8>), BootnodeErrorView>,
> {
    Seq::new(nodes.len(), |i: int| resolved(nodes[i]))
}

/// Whether `r` is what the entries of a chain specification and a list of further nodes amount to.
pub open spec fn is_bootstrap_list(
    nodes: Seq<Bootnode>,
    additional: Seq<(Seq<u8>, Seq<u8>)>,
    r: Result<Seq<(Seq<u8>, Seq<u8>)>, BootnodeErrorView>,
) -> bool {
    is_peer_list(resolved_all(nodes), additional, r)
}

/// Nodes and further nodes amount to one thing only.
pub proof fn peer_list_is_unique(
    found: Seq<Result<(Seq<u8>, Seq<u8>), BootnodeErrorView>>,
    additional: Seq<(Seq<u8>, Seq<u8>)>,
    r1: Result<Seq<(Seq<u8>, Seq<u8>)>, BootnodeErrorView>,
    r2: Result<Seq<(Seq<u8>, Seq<u8>)>, BootnodeErrorView>,
)
    requires
        is_peer_list(found, additional, r1),
        is_peer_list(found, additional, r2),
    ensures
        r1 == r2,
{
    if let (Ok(a), Ok(b)) = (r1, r2) {
        assert forall|i: int| 0 <= i < a.len() implies a[i] == b[i] by {
            if i < found.len() {
                assert(found[i] is Ok);
            } else {
                assert(a.skip(found.len() as int)[i - found.len()] == a[i]);
                assert(b.skip(found.len() as int)[i - found.len()] == b[i]);
            }
        }
        assert(a =~= b);
    }
}

/// A list of nodes, or an error, as mathematical values.
pub open spec fn peers_result(r: Result<Vec<PeerAddress>, BootnodeError>) -> Result<
    Seq<(Seq<u8>, Seq<u8>)>,
    BootnodeErrorView,
> {
    match r {
        Ok(peers) => Ok(peers_view(peers@)),
        Err(err) => Err(err@),
    }
}

/// Nodes, some of which may be missing, as mathematical values.
pub open spec fn peer_results(found: Seq<Result<PeerAddress, BootnodeError>>) -> Seq<
    Result<(Seq<u8>, Seq<u8>), BootnodeErrorView>,
> {
    Seq::new(found.len(), |i: int| peer_result(found[i]))
}

/// Joins nodes, some of which may be missing, and further nodes. Fails with the first error.
pub fn join_peers(
    found: Vec<Result<PeerAddress, BootnodeError>>,
    additional: Vec<PeerAddress>,
) -> (r: Result<Vec<PeerAddress>, BootnodeError>)
    ensures
        is_peer_list(peer_results(found@), peers_view(additional@), peers_result(r)),
{
    let ghost results = peer_results(found@);
    let mut list: Vec<PeerAddress> = Vec::new();
    for peer in it: found.into_iter()
        invariant
            it.seq() == found@,
            results == peer_results(found@),
            list@.len() == it.index(),
            forall|j: int|
                0 <= j < list@.len() ==> #[trigger] results[j] == Ok::<
                    (Seq<u8>, Seq<u8>),
                    BootnodeErrorView,
                >(list@[j]@),
    {
        assert(results[it.index() as int] == peer_result(peer));
        match peer {
            Ok(peer) => {
                list.push(peer);
            },
            Err(err) => {
                return Err(err);
            },
        }
    }
    let mut additional = additional;
    let ghost more = additional@;
    let ghost first = list@;
    list.append(&mut additional);
    assert(list@ == first + more);
    assert(peers_view(list@).skip(results.len() as int) =~= peers_view(more));
    Ok(list)
}

/// The nodes to connect to first: those of the chain specification, then the additional ones.
/// Fails on the first node of the specification that cannot be used.
pub fn bootstrap_nodes(nodes: &Vec<Bootnode>, additional: Vec<PeerAddress>) -> (r: Result<
    Vec<PeerAddress>,
    BootnodeError,
>)
    ensures
        is_bootstrap_list(nodes@, peers_view(additional@), peers_result(r)),
{
    let mut found: Vec<Result<PeerAddress, BootnodeError>> = Vec::new();
    let mut i: usize = 0;
    while i < nodes.len()
        invariant
            i <= nodes@.len(),
            peer_results(found@) =~= resolved_all(nodes@).take(i as int),
        decreases nodes@.len() - i,
    {
        let ghost before = found@;
        found.push(resolve_bootnode(&nodes[i]));
        assert(peer_results(found@) =~= peer_results(before).push(resolved(nodes@[i as int])));
        i += 1;
    }
    assert(peer_results(found@) =~= resolved_all(nodes@));
    join_peers(found, additional)
}

/// An entry whose address and identity are valid stands for the node with this identity and this
/// address. An address that is not valid is an error before an identity is.
pub proof fn entry_stands_for_its_node(multiaddr: String, peer_id: Vec<u8>, raw: String)
    ensures
        resolved(Bootnode::UnrecognizedFormat(raw)) == Err::<
            (Seq<u8>, Seq<u8>),
            BootnodeErrorView,
        >(BootnodeErrorView::Address(raw@)),
        multiaddr_bytes(multiaddr@) is None ==> resolved(Bootnode::Parsed { multiaddr, peer_id })
            == Err::<(Seq<u8>, Seq<u8>), BootnodeErrorView>(BootnodeErrorView::Address(multiaddr@)),
        multiaddr_bytes(multiaddr@) is Some && !is_peer_id(peer_id@) ==> resolved(
            Bootnode::Parsed { multiaddr, peer_id },
        ) == Err::<(Seq<u8>, Seq<u8>), BootnodeErrorView>(BootnodeErrorView::PeerId),
        multiaddr_bytes(multiaddr@) matches Some(bytes) ==> is_peer_id(peer_id@) ==> resolved(
            Bootnode::Parsed { multiaddr, peer_id },
        ) == Ok::<(Seq<u8>, Seq<u8>), BootnodeErrorView>((peer_id@, bytes)),
{
}

/// What an entry stands for is told by the outcome of looking at its address and its identity.
pub proof fn entry_goes_by_what_was_found_out(
    multiaddr: String,
    peer_id: Vec<u8>,
    raw: String,
    address: Option<Seq<u8>>,
    valid_id: bool,
)
    ensures
        resolved_with(Bootnode::UnrecognizedFormat(raw), address, valid_id) == Err::<
            (Seq<u8>, Seq<u8>),
            BootnodeErrorView,
        >(BootnodeErrorView::Address(raw@)),
        address is None ==> resolved_with(
            Bootnode::Parsed { multiaddr, peer_id },
            address,
            valid_id,
        ) == Err::<(Seq<u8>, Seq<u8>), BootnodeErrorView>(BootnodeErrorView::Address(multiaddr@)),
        address is Some && !valid_id ==> resolved_with(
            Bootnode::Parsed { multiaddr, peer_id },
            address,
            valid_id,
        ) == Err::<(Seq<u8>, Seq<u8>), BootnodeErrorView>(BootnodeErrorView::PeerId),
        address matches Some(bytes) ==> valid_id ==> resolved_with(
            Bootnode::Parsed { multiaddr, peer_id },
            address,
            valid_id,
        ) == Ok::<(Seq<u8>, Seq<u8>), BootnodeErrorView>((peer_id@, bytes)),
{
}

/// If all nodes were found, the list is made of them, in order and with none left out, and of the
/// further nodes behind them. Otherwise the error is that of the first node that was not found.
pub proof fn list_holds_all_nodes_in_order(
    found: Seq<Result<(Seq<u8>, Seq<u8>), BootnodeErrorView>>,
    additional: Seq<(Seq<u8>, Seq<u8>)>,
    r: Result<Seq<(Seq<u8>, Seq<u8>)>, BootnodeErrorView>,
    k: int,
)
    requires
        is_peer_list(found, additional, r),
    ensures
        (forall|i: int| 0 <= i < found.len() ==> (#[trigger] found[i]) is Ok) ==> {
            &&& r matches Ok(list)
            &&& list.len() == found.len() + additional.len()
            &&& forall|i: int| 0 <= i < found.len() ==> (#[trigger] found[i])->Ok_0 == list[i]
            &&& forall|i: int|
                0 <= i < additional.len() ==> #[trigger] additional[i] == list[found.len() + i]
        },
        0 <= k < found.len() && found[k] is Err && (forall|j: int|
            0 <= j < k ==> (#[trigger] found[j]) is Ok) ==> r == Err::<
            Seq<(Seq<u8>, Seq<u8>)>,
            BootnodeErrorView,
        >(found[k]->Err_0),
{
    match r {
        Ok(list) => {
            assert forall|i: int| 0 <= i < additional.len() implies #[trigger] additional[i]
                == list[found.len() + i] by {
                assert(list.skip(found.len() as int)[i] == list[found.len() + i]);
            }
            if 0 <= k < found.len() {
                assert(found[k] is Ok);
            }
        },
        Err(err) => {
            let first = choose|first: int|
                {
                    &&& 0 <= first < found.len()
                    &&& #[trigger] found[first] == Err::<(Seq<u8>, Seq<u8>), BootnodeErrorView>(err)
                    &&& forall|j: int| 0 <= j < first ==> (#[trigger] found[j]) is Ok
                };
            assert(found[first] is Err);
        },
    }
}

/// Every entry of a specification is looked at, in order, as are the results, and nothing is lost
/// where nodes and errors are told by their mathematical values.
pub proof fn nodes_are_kept(
    nodes: Seq<Bootnode>,
    peers: Seq<PeerAddress>,
    found: Seq<Result<PeerAddress, BootnodeError>>,
    i: int,
)
    ensures
        resolved_all(nodes).len() == nodes.len(),
        peers_view(peers).len() == peers.len(),
        peer_results(found).len() == found.len(),
        0 <= i < nodes.len() ==> resolved_all(nodes)[i] == resolved(nodes[i]),
        0 <= i < peers.len() ==> peers_view(peers)[i] == (
            peers[i].peer_id@,
            peers[i].multiaddr@,
        ),
        0 <= i < found.len() ==> match found[i] {
            Ok(peer) => peer_results(found)[i] == Ok::<(Seq<u8>, Seq<u8>), BootnodeErrorView>(
                (peer.peer_id@, peer.multiaddr@),
            ),
            Err(BootnodeError::Address(text)) => peer_results(found)[i] == Err::<
                (Seq<u8>, Seq<u8>),
                BootnodeErrorView,
            >(BootnodeErrorView::Address(text@)),
            Err(BootnodeError::PeerId) => peer_results(found)[i] == Err::<
                (Seq<u8>, Seq<u8>),
                BootnodeErrorView,
            >(BootnodeErrorView::PeerId),
        },
{
}

/// A list of nodes and an error are told by their mathematical values.
pub proof fn outcome_is_kept(r: Result<Vec<PeerAddress>, BootnodeError>)
    ensures
        match r {
            Ok(peers) => peers_result(r) == Ok::<Seq<(Seq<u8>, Seq<u8>)>, BootnodeErrorView>(
                peers_view(peers@),
            ),
            Err(BootnodeError::Address(text)) => peers_result(r) == Err::<
                Seq<(Seq<u8>, Seq<u8>)>,
                BootnodeErrorView,
            >(BootnodeErrorView::Address(text@)),
            Err(BootnodeError::PeerId) => peers_result(r) == Err::<
                Seq<(Seq<u8>, Seq<u8>)>,
                BootnodeErrorView,
            >(BootnodeErrorView::PeerId),
        },
{
}

/// The node that an entry was put together to is the one that it stands for.
pub proof fn single_outcome_is_kept(r: Result<PeerAddress, BootnodeError>)
    ensures
        match r {
            Ok(peer) => peer_result(r) == Ok::<(Seq<u8>, Seq<u8>), BootnodeErrorView>(
                (peer.peer_id@, peer.multiaddr@),
            ),
            Err(BootnodeError::Address(text)) => peer_result(r) == Err::<
                (Seq<u8>, Seq<u8>),
                BootnodeErrorView,
            >(BootnodeErrorView::Address(text@)),
            Err(BootnodeError::PeerId) => peer_result(r) == Err::<
                (Seq<u8>, Seq<u8>),
                BootnodeErrorView,
            >(BootnodeErrorView::PeerId),
        },
{
}

/// The bootstrap nodes of a specification all of whose entries can be used are all of them, in
/// order, with the further nodes behind them. If an entry cannot be used, the first such entry
/// tells the error.
pub proof fn bootstrap_list_holds_all_entries(
    nodes: Seq<Bootnode>,
    additional: Seq<(Seq<u8>, Seq<u8>)>,
    r: Result<Seq<(Seq<u8>, Seq<u8>)>, BootnodeErrorView>,
    k: int,
)
    requires
        is_bootstrap_list(nodes, additional, r),
    ensures
        (forall|i: int| 0 <= i < nodes.len() ==> resolved(#[trigger] nodes[i]) is Ok) ==> {
            &&& r matches Ok(list)
            &&& list.len() == nodes.len() + additional.len()
            &&& forall|i: int|
                0 <= i < nodes.len() ==> resolved(#[trigger] nodes[i])->Ok_0 == list[i]
            &&& forall|i: int|
                0 <= i < additional.len() ==> #[trigger] additional[i] == list[nodes.len() + i]
        },
        0 <= k < nodes.len() && resolved(nodes[k]) is Err && (forall|j: int|
            0 <= j < k ==> resolved(#[trigger] nodes[j]) is Ok) ==> r == Err::<
            Seq<(Seq<u8>, Seq<u8>)>,
            BootnodeErrorView,
        >(resolved(nodes[k])->Err_0),
{
    let found = resolved_all(nodes);
    assert(found.len() == nodes.len());
    assert forall|i: int| 0 <= i < nodes.len() implies resolved(#[trigger] nodes[i])
        == found[i] by {}
    list_holds_all_nodes_in_order(found, additional, r, k);
    if forall|i: int| 0 <= i < nodes.len() ==> resolved(#[trigger] nodes[i]) is Ok {
        assert forall|i: int| 0 <= i < found.len() implies (#[trigger] found[i]) is Ok by {
            assert(found[i] == resolved(nodes[i]));
        }
        assert forall|i: int| 0 <= i < nodes.len() implies resolved(#[trigger] nodes[i])->Ok_0
            == r->Ok_0[i] by {
            assert(found[i] == resolved(nodes[i]));
        }
    }
    if 0 <= k < nodes.len() && resolved(nodes[k]) is Err && (forall|j: int|
        0 <= j < k ==> resolved(#[trigger] nodes[j]) is Ok) {
        assert(found[k] == resolved(nodes[k]));
        assert forall|j: int| 0 <= j < k implies (#[trigger] found[j]) is Ok by {
            assert(found[j] == resolved(nodes[j]));
        }
    }
}

/// The identity that goes with a public key of thirty-two bytes ends with this key, so that no two
/// keys have the same identity.
pub proof fn identity_holds_the_key(key: Seq<u8>, other: Seq<u8>)
    ensures
        ed25519_peer_id(key).len() == 6 + key.len(),
        ed25519_peer_id(key).skip(6) == key,
        ed25519_peer_id(key) == ed25519_peer_id(other) ==> key == other,
{
    assert(ed25519_peer_id(key).skip(6) =~= key);
    assert(ed25519_peer_id(other).skip(6) =~= other);
}

} // verus!
