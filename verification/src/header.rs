//! Block headers: what the node reads in their encoding, and their hash.

use crate::scale;
use vstd::prelude::*;
use vstd::slice::slice_subrange;

verus! {

/// What the node reads in the header of a block.
#[derive(Clone, Copy, Debug)]
pub struct Header {
    /// Hash of the parent of the block.
    pub parent_hash: [u8; 32],
    /// Number of the block.
    pub number: u64,
}

/// Where the content of the digest item at the start of `bytes` starts and ends. `None` if there is
/// no item there. An item is made of its type, for some types the name of an engine, and its
/// content behind the length of it.
pub open spec fn item_content(bytes: Seq<u8>) -> Option<(int, int)> {
    if bytes.len() == 0 {
        None
    } else if bytes[0] == 8 {
        Some((1, 1))
    } else if bytes[0] == 0 || bytes[0] == 4 || bytes[0] == 5 || bytes[0] == 6 {
        let head: int = if bytes[0] == 0 {
            1
        } else {
            5
        };
        if bytes.len() < head {
            None
        } else {
            match scale::compact(bytes.skip(head)) {
                None => None,
                Some((len, used)) => if head + used + len <= bytes.len() {
                    Some((head + used, head + used + len))
                } else {
                    None
                },
            }
        }
    } else {
        None
    }
}

/// Whether the digest item at the start of `bytes` is a consensus item of BABE.
pub open spec fn is_babe_consensus(bytes: Seq<u8>) -> bool {
    bytes.len() >= 5 && bytes[0] == 4 && bytes[1] == 0x42 && bytes[2] == 0x41 && bytes[3] == 0x42
        && bytes[4] == 0x45
}

/// Whether a consensus item of BABE that announces an epoch has the length that goes with the
/// number of authorities that it declares: forty bytes for each, and thirty-two more.
pub open spec fn epoch_fits(content: Seq<u8>) -> bool {
    content.len() > 0 && content[0] == 1 ==> match scale::compact(content.skip(1)) {
        Some((authorities, used)) => content.len() == 1 + used + 40 * authorities + 32,
        None => true,
    }
}

/// Whether `epoch_fits` holds of all consensus items of BABE. Where there is no item, nothing
/// behind it is looked at.
pub open spec fn items_fit(bytes: Seq<u8>) -> bool
    decreases bytes.len(),
{
    match item_content(bytes) {
        None => true,
        Some((start, end)) => {
            &&& is_babe_consensus(bytes) ==> epoch_fits(bytes.subrange(start, end))
            &&& items_fit(bytes.skip(end))
        },
    }
}

/// Where the digest items of an encoded header start: behind the hash of the parent, the number,
/// two more hashes, and the number of items.
pub open spec fn digest_items(encoded: Seq<u8>) -> Option<Seq<u8>> {
    if encoded.len() < 32 {
        None
    } else {
        match scale::compact(encoded.skip(32)) {
            None => None,
            Some((_, number)) => if encoded.len() < 96 + number {
                None
            } else {
                match scale::compact(encoded.skip((96 + number) as int)) {
                    None => None,
                    Some((_, count)) => Some(encoded.skip((96 + number + count) as int)),
                }
            },
        }
    }
}

/// Whether every BABE epoch that an encoded header announces declares as many authorities as it
/// lists.
pub open spec fn header_fits(encoded: Seq<u8>) -> bool {
    match digest_items(encoded) {
        Some(items) => items_fit(items),
        None => true,
    }
}

/// What `smoldot::header::decode` finds in an encoded header of which `header_fits` holds: hash of
/// the parent and number of the block, or `None` if it refuses the header. The second parameter is
/// the number of bytes of a block number in the digest items of the chain.
pub uninterp spec fn outside_header(encoded: Seq<u8>, block_number_bytes: usize) -> Option<
    (Seq<u8>, u64),
>;

/// Hash of the parent and number of the block of an encoded header, or `None` if it is not valid.
/// A header that announces a BABE epoch with more or fewer authorities than it declares is not.
pub open spec fn decoded_header(encoded: Seq<u8>, block_number_bytes: usize) -> Option<
    (Seq<u8>, u64),
> {
    if header_fits(encoded) {
        outside_header(encoded, block_number_bytes)
    } else {
        None
    }
}

/// The hash that `smoldot::header::hash_from_scale_encoded_header` gives to an encoded header.
pub uninterp spec fn header_hash(encoded: Seq<u8>) -> Seq<u8>;

/// Calls `smoldot::header::decode`. It is trusted to depend on its two arguments alone, and to
/// find the hash of the parent in the first thirty-two bytes. What else makes a header valid is
/// not said.
///
/// The outside function computes the length of a BABE epoch from the number of authorities that
/// it declares, without checking that the result fits. On a number that is too large it panics, or
/// goes by a wrong length. No such number goes with the length of the item that declares it, so
/// that `header_fits` leaves all of them out.
#[verifier::external_body]
fn call_decode(encoded: &[u8], block_number_bytes: usize) -> (r: Option<Header>)
    requires
        header_fits(encoded@),
    ensures
        match r {
            Some(header) => {
                &&& outside_header(encoded@, block_number_bytes) == Some(
                    (header.parent_hash@, header.number),
                )
                &&& encoded@.len() > 32
                &&& header.parent_hash@ == encoded@.take(32)
            },
            None => outside_header(encoded@, block_number_bytes) is None,
        },
{
    match smoldot::header::decode(encoded, block_number_bytes) {
        Ok(header) => Some(Header { parent_hash: *header.parent_hash, number: header.number }),
        Err(_) => None,
    }
}

/// Calls `smoldot::header::hash_from_scale_encoded_header`, which is trusted to depend on its
/// argument alone.
#[verifier::external_body]
fn call_hash(encoded: &[u8]) -> (r: [u8; 32])
    ensures
        r@ == header_hash(encoded@),
{
    smoldot::header::hash_from_scale_encoded_header(encoded)
}

/// Finds the content of the digest item at the start of `bytes`.
fn find_item_content(bytes: &[u8]) -> (r: Option<(usize, usize)>)
    ensures
        match r {
            Some((start, end)) => {
                &&& item_content(bytes@) == Some((start as int, end as int))
                &&& 0 < start <= end <= bytes@.len()
            },
            None => item_content(bytes@) is None,
        },
{
    if bytes.len() == 0 {
        return None;
    }
    let kind = bytes[0];
    if kind == 8 {
        return Some((1, 1));
    }
    if kind != 0 && kind != 4 && kind != 5 && kind != 6 {
        return None;
    }
    let head: usize = if kind == 0 {
        1
    } else {
        5
    };
    if bytes.len() < head {
        return None;
    }
    match scale::read_compact(slice_subrange(bytes, head, bytes.len())) {
        None => None,
        Some((len, used)) => {
            let start: usize = head + used;
            if len > (bytes.len() - start) as u64 {
                None
            } else {
                Some((start, start + len as usize))
            }
        },
    }
}

/// Whether a consensus item of BABE has the length that goes with the number of authorities that
/// it declares.
pub fn check_epoch(content: &[u8]) -> (r: bool)
    ensures
        r == epoch_fits(content@),
{
    if content.len() == 0 || content[0] != 1 {
        return true;
    }
    match scale::read_compact(slice_subrange(content, 1, content.len())) {
        None => true,
        Some((authorities, used)) => {
            let rest: usize = content.len() - 1 - used;
            rest >= 32 && (rest - 32) % 40 == 0 && ((rest - 32) / 40) as u64 == authorities
        },
    }
}

/// Whether every BABE epoch that an encoded header announces declares as many authorities as it
/// lists.
pub fn check_header(encoded: &[u8]) -> (r: bool)
    ensures
        r == header_fits(encoded@),
{
    if encoded.len() < 32 {
        return true;
    }
    let number: usize = match scale::read_compact(slice_subrange(encoded, 32, encoded.len())) {
        Some((_, number)) => number,
        None => return true,
    };
    if encoded.len() - 32 - number < 64 {
        return true;
    }
    let at: usize = 96 + number;
    let count: usize = match scale::read_compact(slice_subrange(encoded, at, encoded.len())) {
        Some((_, count)) => count,
        None => return true,
    };
    let mut items = slice_subrange(encoded, at + count, encoded.len());
    loop
        invariant
            header_fits(encoded@) == items_fit(items@),
        decreases items@.len(),
    {
        match find_item_content(items) {
            None => {
                return true;
            },
            Some((start, end)) => {
                let babe = items.len() >= 5 && items[0] == 4 && items[1] == 0x42 && items[2] == 0x41
                    && items[3] == 0x42 && items[4] == 0x45;
                if babe && !check_epoch(slice_subrange(items, start, end)) {
                    return false;
                }
                items = slice_subrange(items, end, items.len());
            },
        }
    }
}

/// Reads an encoded header. Returns `None` if it is not valid.
pub fn decode(encoded: &[u8], block_number_bytes: u8) -> (r: Option<Header>)
    ensures
        match r {
            Some(header) => {
                &&& decoded_header(encoded@, block_number_bytes as usize) == Some(
                    (header.parent_hash@, header.number),
                )
                &&& encoded@.len() > 32
                &&& header.parent_hash@ == encoded@.take(32)
            },
            None => decoded_header(encoded@, block_number_bytes as usize) is None,
        },
{
    if !check_header(encoded) {
        return None;
    }
    call_decode(encoded, block_number_bytes as usize)
}

/// The hash of a block, out of its encoded header.
pub fn hash(encoded: &[u8]) -> (r: [u8; 32])
    ensures
        r@ == header_hash(encoded@),
{
    call_hash(encoded)
}

/// An item of the digest of a header.
pub enum DigestItem {
    /// An item of a consensus engine, for other nodes.
    Consensus {
        /// Name of the engine.
        engine: Seq<u8>,
        /// Content of the item.
        content: Seq<u8>,
    },
    /// The signature of the block by a consensus engine.
    Seal {
        /// Name of the engine.
        engine: Seq<u8>,
        /// Content of the item.
        content: Seq<u8>,
    },
    /// An item of a consensus engine, for the runtime.
    PreRuntime {
        /// Name of the engine.
        engine: Seq<u8>,
        /// Content of the item.
        content: Seq<u8>,
    },
    /// The code of the chain has changed.
    RuntimeUpdated,
    /// Anything else.
    Other(Seq<u8>),
}

/// The name of the BABE engine.
pub open spec fn babe() -> Seq<u8> {
    seq![66u8, 65u8, 66u8, 69u8]
}

/// Whether an item has a name of four bytes, where it has one, and a content whose length can be
/// written down.
pub open spec fn is_item(item: DigestItem) -> bool {
    match item {
        DigestItem::Consensus { engine, content } => engine.len() == 4 && content.len()
            <= u64::MAX,
        DigestItem::Seal { engine, content } => engine.len() == 4 && content.len() <= u64::MAX,
        DigestItem::PreRuntime { engine, content } => engine.len() == 4 && content.len()
            <= u64::MAX,
        DigestItem::RuntimeUpdated => true,
        DigestItem::Other(content) => content.len() <= u64::MAX,
    }
}

/// A content, behind its length.
pub open spec fn prefixed(content: Seq<u8>) -> Seq<u8> {
    scale::compact_encoding(content.len()) + content
}

/// An item, encoded.
pub open spec fn item_encoding(item: DigestItem) -> Seq<u8> {
    match item {
        DigestItem::Consensus { engine, content } => seq![4u8] + engine + prefixed(content),
        DigestItem::Seal { engine, content } => seq![5u8] + engine + prefixed(content),
        DigestItem::PreRuntime { engine, content } => seq![6u8] + engine + prefixed(content),
        DigestItem::RuntimeUpdated => seq![8u8],
        DigestItem::Other(content) => seq![0u8] + prefixed(content),
    }
}

/// Items, encoded one after the other.
pub open spec fn items_encoding(items: Seq<DigestItem>) -> Seq<u8>
    decreases items.len(),
{
    if items.len() == 0 {
        Seq::empty()
    } else {
        item_encoding(items[0]) + items_encoding(items.drop_first())
    }
}

/// A header, encoded.
pub open spec fn header_encoding(
    parent_hash: Seq<u8>,
    number: u64,
    state_root: Seq<u8>,
    extrinsics_root: Seq<u8>,
    items: Seq<DigestItem>,
) -> Seq<u8> {
    parent_hash + scale::compact_encoding(number as nat) + state_root + extrinsics_root
        + scale::compact_encoding(items.len()) + items_encoding(items)
}

/// The content of an item that announces an epoch of BABE: the number of authorities, the
/// authorities, and the randomness.
pub open spec fn epoch_encoding(declared: nat, data: Seq<u8>) -> Seq<u8> {
    seq![1u8] + scale::compact_encoding(declared) + data
}

/// Whether an item announces an epoch of BABE that declares a number of authorities other than that
/// of the authorities, of forty bytes each, that it lists in front of thirty-two bytes of
/// randomness.
pub open spec fn is_dishonest(item: DigestItem, declared: nat, data: Seq<u8>) -> bool {
    &&& item == DigestItem::Consensus { engine: babe(), content: epoch_encoding(declared, data) }
    &&& declared <= u64::MAX
    &&& data.len() != 40 * declared + 32
}

/// Whether an item announces an epoch of BABE that lists as many authorities as it declares.
pub open spec fn is_honest_epoch(item: DigestItem, declared: nat, data: Seq<u8>) -> bool {
    &&& item == DigestItem::Consensus { engine: babe(), content: epoch_encoding(declared, data) }
    &&& declared <= u64::MAX
    &&& data.len() == 40 * declared + 32
}

/// Whether an item announces no epoch of BABE at all.
pub open spec fn announces_no_epoch(item: DigestItem) -> bool {
    item matches DigestItem::Consensus { engine, content } ==> engine != babe() || content.len()
        == 0 || content[0] != 1
}

/// An epoch of any number of authorities fits if and only if it lists as many as it declares.
/// Whatever announces no epoch fits.
pub proof fn epoch_fits_if_honest(declared: nat, data: Seq<u8>, other: Seq<u8>)
    requires
        declared <= u64::MAX,
        other.len() > 0 ==> other[0] != 1,
    ensures
        epoch_fits(epoch_encoding(declared, data)) <==> data.len() == 40 * declared + 32,
        epoch_fits(other),
{
    let content = epoch_encoding(declared, data);
    scale::compact_round_trip(declared, data);
    assert(content.skip(1) =~= scale::compact_encoding(declared) + data);
}

/// The content of an encoded item is found, and where the item ends. It is told whether the item is
/// a consensus item of BABE.
pub proof fn item_is_found(item: DigestItem, rest: Seq<u8>)
    requires
        is_item(item),
    ensures
        ({
            let bytes = item_encoding(item) + rest;
            match item_content(bytes) {
                Some((start, end)) => {
                    &&& end == item_encoding(item).len()
                    &&& 0 < start <= end
                    &&& bytes.skip(end) == rest
                    &&& bytes.subrange(start, end) == match item {
                        DigestItem::Consensus { content, .. } => content,
                        DigestItem::Seal { content, .. } => content,
                        DigestItem::PreRuntime { content, .. } => content,
                        DigestItem::RuntimeUpdated => Seq::empty(),
                        DigestItem::Other(content) => content,
                    }
                },
                None => false,
            }
        }),
        is_babe_consensus(item_encoding(item) + rest) <==> (item matches DigestItem::Consensus {
            engine,
            ..
        } && engine == babe()),
{
    let code = item_encoding(item);
    let bytes = code + rest;
    match item {
        DigestItem::Other(content) => {
            scale::compact_round_trip(content.len(), content + rest);
            assert(bytes.skip(1) =~= scale::compact_encoding(content.len()) + (content + rest));
            let start = 1 + scale::compact_encoding(content.len()).len();
            assert(bytes.subrange(start as int, (start + content.len()) as int) =~= content);
            assert(bytes.skip(code.len() as int) =~= rest);
        },
        DigestItem::RuntimeUpdated => {
            assert(bytes.skip(1) =~= rest);
            assert(bytes.subrange(1, 1) =~= Seq::<u8>::empty());
        },
        DigestItem::Consensus { engine, content } => {
            lemma_engine_item(4, engine, content, rest);
        },
        DigestItem::Seal { engine, content } => {
            lemma_engine_item(5, engine, content, rest);
        },
        DigestItem::PreRuntime { engine, content } => {
            lemma_engine_item(6, engine, content, rest);
        },
    }
}

proof fn lemma_engine_item(kind: u8, engine: Seq<u8>, content: Seq<u8>, rest: Seq<u8>)
    requires
        kind == 4 || kind == 5 || kind == 6,
        engine.len() == 4,
        content.len() <= u64::MAX,
    ensures
        ({
            let code = seq![kind] + engine + prefixed(content);
            let bytes = code + rest;
            match item_content(bytes) {
                Some((start, end)) => {
                    &&& end == code.len()
                    &&& 0 < start <= end
                    &&& bytes.skip(end) == rest
                    &&& bytes.subrange(start, end) == content
                },
                None => false,
            }
        }),
        is_babe_consensus(seq![kind] + engine + prefixed(content) + rest) <==> (kind == 4
            && engine == babe()),
{
    let code = seq![kind] + engine + prefixed(content);
    let bytes = code + rest;
    scale::compact_round_trip(content.len(), content + rest);
    assert(bytes.skip(5) =~= scale::compact_encoding(content.len()) + (content + rest));
    let start = 5 + scale::compact_encoding(content.len()).len();
    assert(bytes.subrange(start as int, (start + content.len()) as int) =~= content);
    assert(bytes.skip(code.len() as int) =~= rest);
    assert(bytes[0] == kind);
    assert(bytes[1] == engine[0] && bytes[2] == engine[1] && bytes[3] == engine[2] && bytes[4]
        == engine[3]);
    if engine != babe() {
        assert(!(engine[0] == 66 && engine[1] == 65 && engine[2] == 66 && engine[3] == 69)) by {
            if engine[0] == 66 && engine[1] == 65 && engine[2] == 66 && engine[3] == 69 {
                assert(engine =~= babe());
            }
        }
    }
}

proof fn lemma_items_fit(items: Seq<DigestItem>)
    requires
        forall|i: int| 0 <= i < items.len() ==> is_item(#[trigger] items[i]),
    ensures
        items_fit(items_encoding(items)) <==> forall|i: int|
            0 <= i < items.len() ==> ((#[trigger] items[i]) matches DigestItem::Consensus {
                engine,
                content,
            } ==> engine == babe() ==> epoch_fits(content)),
    decreases items.len(),
{
    if items.len() > 0 {
        let rest = items.drop_first();
        assert forall|i: int| 0 <= i < rest.len() implies is_item(#[trigger] rest[i]) by {
            assert(rest[i] == items[i + 1]);
        }
        lemma_items_fit(rest);
        item_is_found(items[0], items_encoding(rest));
        assert forall|i: int| 0 < i < items.len() implies items[i] == #[trigger] rest[i - 1] by {}
        if forall|i: int|
            0 <= i < rest.len() ==> ((#[trigger] rest[i]) matches DigestItem::Consensus {
                engine,
                content,
            } ==> engine == babe() ==> epoch_fits(content)) {
            assert forall|i: int| 1 <= i < items.len() implies ((
            #[trigger] items[i]) matches DigestItem::Consensus { engine, content } ==> engine
                == babe() ==> epoch_fits(content)) by {
                assert(items[i] == rest[i - 1]);
            }
        } else {
            let i = choose|i: int|
                0 <= i < rest.len() && !((#[trigger] rest[i]) matches DigestItem::Consensus {
                    engine,
                    content,
                } ==> engine == babe() ==> epoch_fits(content));
            assert(items[i + 1] == rest[i]);
        }
    }
}

proof fn lemma_digest_is_found(
    parent_hash: Seq<u8>,
    number: u64,
    state_root: Seq<u8>,
    extrinsics_root: Seq<u8>,
    items: Seq<DigestItem>,
)
    requires
        parent_hash.len() == 32,
        state_root.len() == 32,
        extrinsics_root.len() == 32,
        items.len() <= u64::MAX,
    ensures
        digest_items(header_encoding(parent_hash, number, state_root, extrinsics_root, items))
            == Some(items_encoding(items)),
{
    let encoded = header_encoding(parent_hash, number, state_root, extrinsics_root, items);
    let code = scale::compact_encoding(number as nat);
    let count = scale::compact_encoding(items.len());
    let tail = count + items_encoding(items);
    scale::compact_round_trip(number as nat, state_root + extrinsics_root + tail);
    scale::compact_round_trip(items.len(), items_encoding(items));
    assert(encoded.skip(32) =~= code + (state_root + extrinsics_root + tail));
    assert(encoded.skip((96 + code.len()) as int) =~= tail);
    assert(encoded.skip((96 + code.len() + count.len()) as int) =~= items_encoding(items));
}

/// A header, of whatever number and with whatever items, is handed to the outside code if each
/// epoch of BABE that it announces lists as many authorities as it declares. It is then valid if
/// and only if the outside code says so.
pub proof fn honest_header_is_not_refused(
    parent_hash: Seq<u8>,
    number: u64,
    state_root: Seq<u8>,
    extrinsics_root: Seq<u8>,
    items: Seq<DigestItem>,
    block_number_bytes: usize,
)
    requires
        parent_hash.len() == 32,
        state_root.len() == 32,
        extrinsics_root.len() == 32,
        items.len() <= u64::MAX,
        forall|i: int| 0 <= i < items.len() ==> is_item(#[trigger] items[i]),
        forall|i: int|
            0 <= i < items.len() ==> (announces_no_epoch(#[trigger] items[i]) || exists|
                declared: nat,
                data: Seq<u8>,
            | #[trigger]
                is_honest_epoch(items[i], declared, data)),
    ensures
        ({
            let encoded = header_encoding(
                parent_hash,
                number,
                state_root,
                extrinsics_root,
                items,
            );
            &&& header_fits(encoded)
            &&& decoded_header(encoded, block_number_bytes) == outside_header(
                encoded,
                block_number_bytes,
            )
        }),
{
    lemma_digest_is_found(parent_hash, number, state_root, extrinsics_root, items);
    lemma_items_fit(items);
    assert forall|i: int| 0 <= i < items.len() implies ((
    #[trigger] items[i]) matches DigestItem::Consensus { engine, content } ==> engine == babe()
        ==> epoch_fits(content)) by {
        if let DigestItem::Consensus { engine, content } = items[i] {
            if engine == babe() {
                if announces_no_epoch(items[i]) {
                    epoch_fits_if_honest(0, Seq::empty(), content);
                } else {
                    let (declared, data) = choose|declared: nat, data: Seq<u8>| #[trigger]
                        is_honest_epoch(items[i], declared, data);
                    epoch_fits_if_honest(declared, data, Seq::empty());
                }
            }
        }
    }
}

/// A header that announces an epoch of BABE with more or fewer authorities than it declares is not
/// valid.
pub proof fn dishonest_header_is_refused(
    parent_hash: Seq<u8>,
    number: u64,
    state_root: Seq<u8>,
    extrinsics_root: Seq<u8>,
    items: Seq<DigestItem>,
    block_number_bytes: usize,
    i: int,
    declared: nat,
    data: Seq<u8>,
)
    requires
        parent_hash.len() == 32,
        state_root.len() == 32,
        extrinsics_root.len() == 32,
        items.len() <= u64::MAX,
        forall|j: int| 0 <= j < items.len() ==> is_item(#[trigger] items[j]),
        0 <= i < items.len(),
        is_dishonest(items[i], declared, data),
    ensures
        decoded_header(
            header_encoding(parent_hash, number, state_root, extrinsics_root, items),
            block_number_bytes,
        ) is None,
{
    lemma_digest_is_found(parent_hash, number, state_root, extrinsics_root, items);
    lemma_items_fit(items);
    epoch_fits_if_honest(declared, data, Seq::empty());
    assert(items[i] is Consensus);
}

/// A header that is too short to hold more than the hash of the parent is left to the outside code.
pub proof fn short_header_is_left_to_the_outside_code(encoded: Seq<u8>, block_number_bytes: usize)
    requires
        encoded.len() <= 32,
    ensures
        decoded_header(encoded, block_number_bytes) == outside_header(encoded, block_number_bytes),
{
}

} // verus!
