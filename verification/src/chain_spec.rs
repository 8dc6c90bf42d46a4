//! Reading chain specifications.

use crate::chain::{Bootnode, ChainSpec, ChainSpecView};
use crate::genesis::{self, GenesisStorage};
use crate::header;
use crate::hexadecimal;
use crate::json;
use crate::light_sync;
use vstd::prelude::*;
use vstd::string::*;

verus! {

/// Whether the genesis storage of a chain specification lists child tries.
pub open spec fn lists_child_tries(spec: Seq<u8>) -> bool {
    match json::field_of(spec, "genesis"@, 13) {
        Some(genesis) => match json::json_object(vstd::utf8::encode_utf8(genesis)) {
            Some(members) => match json::member_of(members, "raw"@) {
                Some(raw) => match json::field_of(vstd::utf8::encode_utf8(raw), "childrenDefault"@, 1) {
                    Some(tries) => match json::json_object(vstd::utf8::encode_utf8(tries)) {
                        Some(tries) => tries.len() > 0,
                        None => false,
                    },
                    None => false,
                },
                None => false,
            },
            None => false,
        },
        None => false,
    }
}

/// The bytes that a text stands for: `0x`, and hexadecimal digits behind it.
pub open spec fn prefixed_bytes(text: Seq<char>) -> Option<Seq<u8>> {
    if text.len() >= 2 && text[0] == '0' && text[1] == 'x' && hexadecimal::is_hex(text.skip(2)) {
        Some(hexadecimal::hex_bytes(text.skip(2)))
    } else {
        None
    }
}

/// The bytes that a field of a structure holds as a hexadecimal string.
pub open spec fn bytes_field_of(json: Seq<u8>, name: Seq<char>, index: int) -> Option<Seq<u8>> {
    match json::field_of(json, name, index) {
        Some(field) => match json::json_string(vstd::utf8::encode_utf8(field)) {
            Some(text) => prefixed_bytes(text),
            None => None,
        },
        None => None,
    }
}

/// Whether each part of a light synchronization state that is there can be read: the trees of
/// forks of its authorities and of its epochs, and its header.
pub open spec fn light_sync_state_fits(state: Seq<u8>) -> bool {
    &&& match bytes_field_of(state, "babeEpochChanges"@, 0) {
        Some(bytes) => light_sync::epoch_changes_fits(bytes),
        None => true,
    }
    &&& match bytes_field_of(state, "finalizedBlockHeader"@, 2) {
        Some(bytes) => header::header_fits(bytes),
        None => true,
    }
    &&& match bytes_field_of(state, "grandpaAuthoritySet"@, 3) {
        Some(bytes) => light_sync::authority_set_fits(bytes),
        None => true,
    }
}

/// Whether the light synchronization state of a chain specification can be read, if there is one.
pub open spec fn light_sync_fits(spec: Seq<u8>) -> bool {
    match json::field_of(spec, "lightSyncState"@, 14) {
        Some(state) => light_sync_state_fits(vstd::utf8::encode_utf8(state)),
        None => true,
    }
}

/// What the node reads in a chain specification, as
/// `smoldot::chain_spec::ChainSpec::from_json_bytes` parses it, or `None` if it refuses it.
pub uninterp spec fn parsed_spec(spec: Seq<u8>) -> Option<ChainSpecView>;

/// The items of the genesis storage of a chain specification, as `smoldot::chain_spec::ChainSpec`
/// holds them, or `None` if it holds the root of the storage in place of the items.
pub uninterp spec fn genesis_items(spec: Seq<u8>) -> Option<Seq<(Seq<u8>, Seq<u8>)>>;

/// Calls `smoldot::chain_spec::ChainSpec::from_json_bytes` and takes what the node reads in the
/// result. It is trusted to depend on the text alone.
///
/// The outside code panics on child tries. In the light synchronization state it panics on a header
/// that `header_fits` does not hold of, reserves memory for as many nodes as a tree of forks
/// declares, and goes down the levels of a tree by recursion.
#[verifier::external_body]
fn call_parse(spec: &[u8]) -> (r: Option<ChainSpec>)
    requires
        !lists_child_tries(spec@),
        light_sync_fits(spec@),
    ensures
        match r {
            Some(parsed) => parsed_spec(spec@) == Some(parsed@),
            None => parsed_spec(spec@) is None,
        },
{
    let spec = smoldot::chain_spec::ChainSpec::from_json_bytes(spec).ok()?;
    let boot_nodes = spec.boot_nodes().map(|node| match node {
        smoldot::chain_spec::Bootnode::UnrecognizedFormat(raw) => Bootnode::UnrecognizedFormat(raw.to_owned()),
        smoldot::chain_spec::Bootnode::Parsed { multiaddr, peer_id } => Bootnode::Parsed { multiaddr, peer_id },
    }).collect();
    let (id, name) = (spec.id().to_owned(), spec.name().to_owned());
    let fork_id = spec.fork_id().map(|fork_id| fork_id.to_owned());
    let relay_chain = spec.relay_chain().map(|(name, id)| (name.to_owned(), id));
    let block_number_bytes = spec.block_number_bytes();
    Some(ChainSpec { id, name, fork_id, block_number_bytes, relay_chain, boot_nodes })
}

/// Calls `smoldot::chain_spec::ChainSpec::from_json_bytes`, then `genesis_storage` and
/// `into_genesis_items`, and takes the items. They are trusted to depend on the text alone, and the
/// first of these calls to refuse the same specifications as it does in `call_parse`. The outside
/// code panics as said there.
#[verifier::external_body]
fn call_genesis_items(spec: &[u8]) -> (r: Option<Option<Vec<(Vec<u8>, Vec<u8>)>>>)
    requires
        !lists_child_tries(spec@),
        light_sync_fits(spec@),
    ensures
        r is None <==> parsed_spec(spec@) is None,
        match r {
            Some(Some(items)) => genesis_items(spec@) == Some(genesis::items_view(items@)),
            Some(None) => genesis_items(spec@) is None,
            None => true,
        },
{
    let spec = smoldot::chain_spec::ChainSpec::from_json_bytes(spec).ok()?;
    Some(spec.genesis_storage().into_genesis_items().map(|items| {
        items.iter().map(|(key, value)| (key.to_vec(), value.to_vec())).collect()
    }))
}

/// Why a chain specification cannot be used.
#[derive(Clone, Copy, Debug, PartialEq, Eq, Structural)]
pub enum SpecError {
    /// The genesis storage has child tries.
    ChildTries,
    /// The light synchronization state cannot be read.
    LightSyncState,
    /// The specification is not valid.
    Invalid,
}

/// Why a chain specification cannot be parsed, if that is known without parsing it.
pub open spec fn refused(spec: Seq<u8>) -> Option<SpecError> {
    if lists_child_tries(spec) {
        Some(SpecError::ChildTries)
    } else if !light_sync_fits(spec) {
        Some(SpecError::LightSyncState)
    } else {
        None
    }
}

/// Whether the genesis storage of a chain specification lists child tries.
fn check_child_tries(spec: &[u8]) -> (r: bool)
    ensures
        r == lists_child_tries(spec@),
{
    let genesis = match json::field(spec, "genesis", 13) {
        Some(genesis) => genesis,
        None => return false,
    };
    let members = match json::object(genesis.as_str().as_bytes()) {
        Some(members) => members,
        None => return false,
    };
    let raw = match json::find_member(&members, "raw") {
        Some(raw) => raw,
        None => return false,
    };
    let tries = match json::field(raw.as_str().as_bytes(), "childrenDefault", 1) {
        Some(tries) => tries,
        None => return false,
    };
    match json::object(tries.as_str().as_bytes()) {
        Some(tries) => tries.len() > 0,
        None => false,
    }
}

/// Reads bytes that are written as `0x` and hexadecimal digits behind it.
pub fn read_prefixed(text: &str) -> (r: Option<Vec<u8>>)
    ensures
        match r {
            Some(bytes) => prefixed_bytes(text@) == Some(bytes@),
            None => prefixed_bytes(text@) is None,
        },
{
    let len: usize = text.unicode_len();
    if len < 2 || text.get_char(0) != '0' || text.get_char(1) != 'x' {
        return None;
    }
    let digits = text.substring_char(2, len);
    assert(digits@ =~= text@.skip(2));
    hexadecimal::read_hex(digits)
}

/// Reads the bytes that a field of a structure holds as a hexadecimal string.
fn bytes_field(json: &[u8], name: &str, index: usize) -> (r: Option<Vec<u8>>)
    ensures
        match r {
            Some(bytes) => bytes_field_of(json@, name@, index as int) == Some(bytes@),
            None => bytes_field_of(json@, name@, index as int) is None,
        },
{
    match json::field(json, name, index) {
        Some(field) => match json::string(field.as_str().as_bytes()) {
            Some(text) => read_prefixed(text.as_str()),
            None => None,
        },
        None => None,
    }
}

/// Whether each part of a light synchronization state that is there can be read.
fn check_light_sync_state(state: &[u8]) -> (r: bool)
    ensures
        r == light_sync_state_fits(state@),
{
    if let Some(bytes) = bytes_field(state, "babeEpochChanges", 0) {
        if !light_sync::check_epoch_changes(bytes.as_slice()) {
            return false;
        }
    }
    if let Some(bytes) = bytes_field(state, "finalizedBlockHeader", 2) {
        if !header::check_header(bytes.as_slice()) {
            return false;
        }
    }
    if let Some(bytes) = bytes_field(state, "grandpaAuthoritySet", 3) {
        if !light_sync::check_authority_set(bytes.as_slice()) {
            return false;
        }
    }
    true
}

/// Finds out whether a chain specification cannot be parsed.
fn check_spec(spec: &[u8]) -> (r: Option<SpecError>)
    ensures
        r == refused(spec@),
{
    if check_child_tries(spec) {
        return Some(SpecError::ChildTries);
    }
    match json::field(spec, "lightSyncState", 14) {
        Some(state) => if check_light_sync_state(state.as_str().as_bytes()) {
            None
        } else {
            Some(SpecError::LightSyncState)
        },
        None => None,
    }
}

/// Parses a chain specification.
pub fn parse_chain_spec(spec: &[u8]) -> (r: Result<ChainSpec, SpecError>)
    ensures
        match refused(spec@) {
            Some(err) => r == Err::<ChainSpec, SpecError>(err),
            None => match parsed_spec(spec@) {
                Some(parsed) => r matches Ok(spec) && spec@ == parsed,
                None => r == Err::<ChainSpec, SpecError>(SpecError::Invalid),
            },
        },
{
    if let Some(err) = check_spec(spec) {
        return Err(err);
    }
    match call_parse(spec) {
        Some(parsed) => Ok(parsed),
        None => Err(SpecError::Invalid),
    }
}

/// Reads the items of the genesis storage of a chain specification. Returns `Ok(None)` if it holds
/// the root of the storage in place of the items.
pub fn genesis_storage(spec: &[u8]) -> (r: Result<Option<GenesisStorage>, SpecError>)
    ensures
        match refused(spec@) {
            Some(err) => r == Err::<Option<GenesisStorage>, SpecError>(err),
            None => if parsed_spec(spec@) is None {
                r == Err::<Option<GenesisStorage>, SpecError>(SpecError::Invalid)
            } else {
                match genesis_items(spec@) {
                    Some(items) => r matches Ok(Some(storage)) && storage@ == items,
                    None => r == Ok::<Option<GenesisStorage>, SpecError>(None),
                }
            },
        },
{
    if let Some(err) = check_spec(spec) {
        return Err(err);
    }
    match call_genesis_items(spec) {
        Some(Some(items)) => Ok(Some(GenesisStorage::new(items))),
        Some(None) => Ok(None),
        None => Err(SpecError::Invalid),
    }
}

/// Bytes that were written as `0x` and hexadecimal digits are read back, and nothing is read that
/// is not written like that.
pub proof fn prefixed_bytes_round_trip(bytes: Seq<u8>, text: Seq<char>)
    ensures
        prefixed_bytes(seq!['0', 'x'] + hexadecimal::hex_text(bytes)) == Some(bytes),
        prefixed_bytes(text) matches Some(read) ==> {
            &&& text.len() == 2 + 2 * read.len()
            &&& text[0] == '0' && text[1] == 'x'
            &&& hexadecimal::is_hex(text.skip(2))
            &&& hexadecimal::hex_bytes(text.skip(2)) == read
        },
        prefixed_bytes(text) is None ==> text.len() < 2 || text[0] != '0' || text[1] != 'x'
            || !hexadecimal::is_hex(text.skip(2)),
{
    hexadecimal::hex_round_trip(bytes);
    let written = seq!['0', 'x'] + hexadecimal::hex_text(bytes);
    assert(written.skip(2) =~= hexadecimal::hex_text(bytes));
}

/// A field that holds `0x` and the hexadecimal digits of some bytes is read as these bytes.
pub proof fn bytes_field_is_read(
    json: Seq<u8>,
    name: Seq<char>,
    index: int,
    field: Seq<char>,
    bytes: Seq<u8>,
)
    requires
        json::field_of(json, name, index) == Some(field),
        json::json_string(vstd::utf8::encode_utf8(field)) == Some(
            seq!['0', 'x'] + hexadecimal::hex_text(bytes),
        ),
    ensures
        bytes_field_of(json, name, index) == Some(bytes),
{
    prefixed_bytes_round_trip(bytes, Seq::empty());
}

/// A specification whose genesis storage is an object lists child tries if and only if the field for
/// them is an object that is not empty.
pub proof fn child_tries_are_listed_if_there_are_any(
    spec: Seq<u8>,
    genesis: Seq<char>,
    members: Seq<(Seq<char>, Seq<char>)>,
    raw: Seq<char>,
    tries: Seq<char>,
)
    requires
        json::field_of(spec, "genesis"@, 13) == Some(genesis),
        json::json_object(vstd::utf8::encode_utf8(genesis)) == Some(members),
        json::member_of(members, "raw"@) == Some(raw),
        json::field_of(vstd::utf8::encode_utf8(raw), "childrenDefault"@, 1) == Some(tries),
    ensures
        lists_child_tries(spec) <==> (json::json_object(
            vstd::utf8::encode_utf8(tries),
        ) matches Some(list) && list.len() > 0),
{
}

/// A specification that holds the root of the genesis storage in place of its items, or no genesis
/// at all, lists no child tries.
pub proof fn no_items_no_child_tries(spec: Seq<u8>)
    requires
        json::field_of(spec, "genesis"@, 13) matches Some(genesis) ==> (json::json_object(
            vstd::utf8::encode_utf8(genesis),
        ) matches Some(members) ==> json::member_of(members, "raw"@) is None),
    ensures
        !lists_child_tries(spec),
{
}

/// A light synchronization state is refused only for what is in it: a state that consists of
/// encoded epochs and authorities whose trees of forks have one hundred and twenty-eight levels at
/// most, of any size, and of a header that can be handed to the outside code, is accepted.
pub proof fn encoded_light_sync_state_is_accepted(
    state: Seq<u8>,
    epochs: Seq<light_sync::ForkNode>,
    more_epochs: Seq<u8>,
    header: Seq<u8>,
    count: nat,
    authorities: Seq<u8>,
    set_id: Seq<u8>,
    changes: Seq<light_sync::ForkNode>,
    more_changes: Seq<u8>,
)
    requires
        light_sync::are_nodes(light_sync::NodeData::EpochHeader, epochs),
        light_sync::within(epochs, 128),
        bytes_field_of(state, "babeEpochChanges"@, 0) == Some(
            light_sync::tree_encoding(epochs) + more_epochs,
        ),
        header::header_fits(header),
        bytes_field_of(state, "finalizedBlockHeader"@, 2) == Some(header),
        count <= u64::MAX,
        authorities.len() == 40 * count,
        set_id.len() == 8,
        light_sync::are_nodes(light_sync::NodeData::PendingChange, changes),
        light_sync::within(changes, 128),
        bytes_field_of(state, "grandpaAuthoritySet"@, 3) == Some(
            crate::scale::compact_encoding(count) + authorities + set_id
                + light_sync::tree_encoding(changes) + more_changes,
        ),
    ensures
        light_sync_state_fits(state),
{
    light_sync::epoch_changes_are_accepted(epochs, more_epochs);
    light_sync::authority_set_is_accepted(count, authorities, set_id, changes, more_changes);
}

/// A light synchronization state one part of which cannot be read is refused, whatever the others.
pub proof fn bad_light_sync_state_is_refused(spec: Seq<u8>, state: Seq<char>, bytes: Seq<u8>)
    requires
        json::field_of(spec, "lightSyncState"@, 14) == Some(state),
        ({
            let json = vstd::utf8::encode_utf8(state);
            ||| bytes_field_of(json, "babeEpochChanges"@, 0) == Some(bytes)
                && !light_sync::epoch_changes_fits(bytes)
            ||| bytes_field_of(json, "finalizedBlockHeader"@, 2) == Some(bytes)
                && !header::header_fits(bytes)
            ||| bytes_field_of(json, "grandpaAuthoritySet"@, 3) == Some(bytes)
                && !light_sync::authority_set_fits(bytes)
        }),
    ensures
        !light_sync_fits(spec),
        refused(spec) is Some,
{
}

/// A specification that lists no child tries, and whose light synchronization state fits if there is
/// one, is left to the outside code.
pub proof fn ordinary_specification_is_not_refused(spec: Seq<u8>)
    requires
        !lists_child_tries(spec),
        json::field_of(spec, "lightSyncState"@, 14) matches Some(state) ==> light_sync_state_fits(
            vstd::utf8::encode_utf8(state),
        ),
    ensures
        refused(spec) is None,
{
}

/// Child tries are what a specification is refused for first.
pub proof fn child_tries_are_refused(spec: Seq<u8>)
    ensures
        refused(spec) == Some(SpecError::ChildTries) <==> lists_child_tries(spec),
        refused(spec) == Some(SpecError::LightSyncState) <==> !lists_child_tries(spec)
            && !light_sync_fits(spec),
        refused(spec) != Some(SpecError::Invalid),
{
}

/// A specification that lists child tries holds an object for its genesis storage, with the items in
/// it, and a field for child tries with one child trie at least.
pub proof fn listed_child_tries_are_there(spec: Seq<u8>)
    requires
        lists_child_tries(spec),
    ensures
        exists|
            genesis: Seq<char>,
            members: Seq<(Seq<char>, Seq<char>)>,
            raw: Seq<char>,
            tries: Seq<char>,
            list: Seq<(Seq<char>, Seq<char>)>,
        |
            {
                &&& json::field_of(spec, "genesis"@, 13) == Some(genesis)
                &&& #[trigger] json::json_object(vstd::utf8::encode_utf8(genesis)) == Some(members)
                &&& #[trigger] json::member_of(members, "raw"@) == Some(raw)
                &&& #[trigger] json::field_of(
                    vstd::utf8::encode_utf8(raw),
                    "childrenDefault"@,
                    1,
                ) == Some(tries)
                &&& #[trigger] json::json_object(vstd::utf8::encode_utf8(tries)) == Some(list)
                &&& #[trigger] list.len() > 0
            },
{
    let genesis = json::field_of(spec, "genesis"@, 13)->Some_0;
    let members = json::json_object(vstd::utf8::encode_utf8(genesis))->Some_0;
    let raw = json::member_of(members, "raw"@)->Some_0;
    let tries = json::field_of(vstd::utf8::encode_utf8(raw), "childrenDefault"@, 1)->Some_0;
    let list = json::json_object(vstd::utf8::encode_utf8(tries))->Some_0;
    assert(json::json_object(vstd::utf8::encode_utf8(genesis)) == Some(members));
    assert(json::member_of(members, "raw"@) == Some(raw));
    assert(json::field_of(vstd::utf8::encode_utf8(raw), "childrenDefault"@, 1) == Some(tries));
    assert(json::json_object(vstd::utf8::encode_utf8(tries)) == Some(list));
    assert(list.len() > 0);
}

/// A light synchronization state is refused only for a part that is there and that cannot be read.
/// A part that is missing, or that is not written in hexadecimal digits, is left to the outside
/// code.
pub proof fn state_is_refused_for_one_of_its_parts(spec: Seq<u8>)
    requires
        !light_sync_fits(spec),
    ensures
        ({
            &&& json::field_of(spec, "lightSyncState"@, 14) matches Some(state)
            &&& {
                let json = vstd::utf8::encode_utf8(state);
                ||| bytes_field_of(json, "babeEpochChanges"@, 0) matches Some(bytes)
                    && !light_sync::epoch_changes_fits(bytes)
                ||| bytes_field_of(json, "finalizedBlockHeader"@, 2) matches Some(bytes)
                    && !header::header_fits(bytes)
                ||| bytes_field_of(json, "grandpaAuthoritySet"@, 3) matches Some(bytes)
                    && !light_sync::authority_set_fits(bytes)
            }
        }),
{
}

} // verus!
