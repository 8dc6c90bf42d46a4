//! The trees of forks in the state that a light synchronization starts from.

use crate::scale;
use vstd::prelude::*;
use vstd::slice::slice_subrange;

verus! {

/// Number of levels that a tree of forks may have. The outside code that reads a tree goes down
/// its levels by recursion, and aborts the program where the stack does not hold them all. How many
/// that are depends on the machine, on the thread and on how the program was built. The number
/// here is the one of levels that `serde_json` allows the JSON around the tree to have.
pub const MAX_TREE_DEPTH: usize = 128;

/// Number of bytes that a node of a tree takes at least.
pub const MIN_NODE_LEN: usize = 54;

/// What the nodes of a tree of forks hold.
#[derive(Clone, Copy, Debug, PartialEq, Eq, Structural)]
pub enum NodeData {
    /// A change of the GrandPa authorities: a list of authorities of forty bytes each, forty more
    /// bytes, and a delay of one or five bytes.
    PendingChange,
    /// The slots of one BABE epoch or of two.
    EpochHeader,
}

/// Number of bytes of the data of a node at the start of `bytes`, or `None` if it is not valid.
pub open spec fn data_len(data: NodeData, bytes: Seq<u8>) -> Option<nat> {
    match data {
        NodeData::PendingChange => match scale::compact(bytes) {
            None => None,
            Some((authorities, used)) => {
                let at = used + 40 * authorities + 40;
                if bytes.len() <= at {
                    None
                } else if bytes[at as int] == 0 {
                    Some(at + 1)
                } else if bytes[at as int] == 1 && bytes.len() >= at + 5 {
                    Some(at + 5)
                } else {
                    None
                }
            },
        },
        NodeData::EpochHeader => if bytes.len() >= 33 && bytes[0] == 0 {
            Some(33)
        } else if bytes.len() >= 17 && bytes[0] == 1 {
            Some(17)
        } else {
            None
        },
    }
}

/// Number of children of the node at the start of `bytes`, and number of bytes in front of them: a
/// hash, a number, the data, and the number of children. `None` if there is no node.
pub open spec fn node_head(data: NodeData, bytes: Seq<u8>) -> Option<(nat, nat)> {
    if bytes.len() < 36 {
        None
    } else {
        match data_len(data, bytes.skip(36)) {
            None => None,
            Some(len) => match scale::compact(bytes.skip((36 + len) as int)) {
                None => None,
                Some((children, used)) => Some((children, 36 + len + used)),
            },
        }
    }
}

/// Number of bytes of the subtree at the start of `bytes`. `None` if it is not valid, if it has more
/// than `depth` levels, or if some node of it has more children than there is room for behind it,
/// next to the nodes that are still to come. Of the latter there are `owed` behind the subtree.
pub open spec fn subtree_len(data: NodeData, bytes: Seq<u8>, owed: nat, depth: nat) -> Option<nat>
    decreases bytes.len(), 0int,
{
    if depth == 0 {
        None
    } else {
        match node_head(data, bytes) {
            None => None,
            Some((children, head)) => if head == 0 || head > bytes.len() || children + owed > (
            bytes.len() - head) / MIN_NODE_LEN as int {
                None
            } else {
                match subtrees_len(
                    data,
                    bytes.skip(head as int),
                    children,
                    owed,
                    (depth - 1) as nat,
                ) {
                    None => None,
                    Some(below) => Some(head + below),
                }
            },
        }
    }
}

/// Number of bytes of the `count` subtrees at the start of `bytes`, behind which there are `owed`
/// nodes. `None` if `subtree_len` is for one of them.
pub open spec fn subtrees_len(
    data: NodeData,
    bytes: Seq<u8>,
    count: nat,
    owed: nat,
    depth: nat,
) -> Option<nat>
    decreases bytes.len(), 1int,
{
    if count == 0 {
        Some(0)
    } else {
        match subtree_len(data, bytes, (owed + count - 1) as nat, depth) {
            None => None,
            Some(first) => if first == 0 || first > bytes.len() {
                None
            } else {
                match subtrees_len(
                    data,
                    bytes.skip(first as int),
                    (count - 1) as nat,
                    owed,
                    depth,
                ) {
                    None => None,
                    Some(rest) => Some(first + rest),
                }
            },
        }
    }
}

/// Whether `bytes` starts with the nodes of a tree of forks that is not too deep, and that declares
/// no more nodes than there is room for.
pub open spec fn tree_fits(data: NodeData, bytes: Seq<u8>) -> bool {
    match scale::compact(bytes) {
        None => false,
        Some((roots, used)) => {
            let rest = bytes.skip(used as int);
            &&& roots <= rest.len() / MIN_NODE_LEN as nat
            &&& subtrees_len(data, rest, roots, 0, MAX_TREE_DEPTH as nat) is Some
        },
    }
}

/// Whether the tree of forks of an encoded set of GrandPa authorities can be read. The tree is
/// behind a list of authorities of forty bytes each, and eight more bytes.
pub open spec fn authority_set_fits(bytes: Seq<u8>) -> bool {
    match scale::compact(bytes) {
        None => false,
        Some((authorities, used)) => {
            let at = used + 40 * authorities + 8;
            at <= bytes.len() && tree_fits(NodeData::PendingChange, bytes.skip(at as int))
        },
    }
}

/// Whether the tree of forks at the start of encoded BABE epochs can be read.
pub open spec fn epoch_changes_fits(bytes: Seq<u8>) -> bool {
    tree_fits(NodeData::EpochHeader, bytes)
}

/// Number of bytes of the data of a node at the start of `bytes`.
fn read_data_len(data: NodeData, bytes: &[u8]) -> (r: Option<usize>)
    ensures
        match r {
            Some(len) => data_len(data, bytes@) == Some(len as nat) && len <= bytes@.len(),
            None => data_len(data, bytes@) is None,
        },
{
    match data {
        NodeData::PendingChange => match scale::read_compact(bytes) {
            None => None,
            Some((authorities, used)) => {
                if authorities > (bytes.len() / 40) as u64 {
                    return None;
                }
                let list: usize = 40 * authorities as usize;
                let rest: usize = bytes.len() - used;
                if rest < list || rest - list <= 40 {
                    return None;
                }
                let at: usize = used + list + 40;
                if bytes[at] == 0 {
                    Some(at + 1)
                } else if bytes[at] == 1 && bytes.len() - at >= 5 {
                    Some(at + 5)
                } else {
                    None
                }
            },
        },
        NodeData::EpochHeader => if bytes.len() >= 33 && bytes[0] == 0 {
            Some(33)
        } else if bytes.len() >= 17 && bytes[0] == 1 {
            Some(17)
        } else {
            None
        },
    }
}

/// Number of children of the node at the start of `bytes`, and number of bytes in front of them.
fn read_node_head(data: NodeData, bytes: &[u8]) -> (r: Option<(u64, usize)>)
    ensures
        match r {
            Some((children, head)) => {
                &&& node_head(data, bytes@) == Some((children as nat, head as nat))
                &&& 0 < head <= bytes@.len()
            },
            None => node_head(data, bytes@) is None,
        },
{
    if bytes.len() < 36 {
        return None;
    }
    match read_data_len(data, slice_subrange(bytes, 36, bytes.len())) {
        None => None,
        Some(len) => match scale::read_compact(slice_subrange(bytes, 36 + len, bytes.len())) {
            None => None,
            Some((children, used)) => Some((children, 36 + len + used)),
        },
    }
}

/// Number of bytes of the subtree at the start of `bytes`.
fn read_subtree(data: NodeData, bytes: &[u8], owed: usize, depth: usize) -> (r: Option<usize>)
    ensures
        match r {
            Some(len) => {
                &&& subtree_len(data, bytes@, owed as nat, depth as nat) == Some(len as nat)
                &&& 0 < len <= bytes@.len()
            },
            None => subtree_len(data, bytes@, owed as nat, depth as nat) is None,
        },
    decreases depth, 0int,
{
    if depth == 0 {
        return None;
    }
    let (children, head) = match read_node_head(data, bytes) {
        None => return None,
        Some(found) => found,
    };
    let room: usize = (bytes.len() - head) / MIN_NODE_LEN;
    if owed > room || children > (room - owed) as u64 {
        return None;
    }
    let below = slice_subrange(bytes, head, bytes.len());
    assert(below@ =~= bytes@.skip(head as int));
    match read_subtrees(data, below, children as usize, owed, depth - 1) {
        None => None,
        Some(len) => Some(head + len),
    }
}

/// Number of bytes of the `count` subtrees at the start of `bytes`.
fn read_subtrees(data: NodeData, bytes: &[u8], count: usize, owed: usize, depth: usize) -> (r:
    Option<usize>)
    requires
        owed + count <= usize::MAX,
    ensures
        match r {
            Some(len) => {
                &&& subtrees_len(data, bytes@, count as nat, owed as nat, depth as nat) == Some(
                    len as nat,
                )
                &&& len <= bytes@.len()
            },
            None => subtrees_len(data, bytes@, count as nat, owed as nat, depth as nat) is None,
        },
    decreases depth, 1int,
{
    let ghost goal = subtrees_len(data, bytes@, count as nat, owed as nat, depth as nat);
    let mut at: usize = 0;
    let mut left: usize = count;
    assert(bytes@.skip(0) =~= bytes@);
    while left > 0
        invariant
            owed + count <= usize::MAX,
            goal == subtrees_len(data, bytes@, count as nat, owed as nat, depth as nat),
            left <= count,
            at <= bytes@.len(),
            goal == match subtrees_len(
                data,
                bytes@.skip(at as int),
                left as nat,
                owed as nat,
                depth as nat,
            ) {
                Some(rest) => Some((at + rest) as nat),
                None => None,
            },
        decreases left,
    {
        let rest = slice_subrange(bytes, at, bytes.len());
        assert(rest@ =~= bytes@.skip(at as int));
        match read_subtree(data, rest, owed + (left - 1), depth) {
            None => return None,
            Some(len) => {
                assert(rest@.skip(len as int) =~= bytes@.skip(at + len));
                at = at + len;
                left -= 1;
            },
        }
    }
    Some(at)
}

/// Whether `bytes` starts with the nodes of a tree of forks that can be read.
fn check_tree(data: NodeData, bytes: &[u8]) -> (r: bool)
    ensures
        r == tree_fits(data, bytes@),
{
    match scale::read_compact(bytes) {
        None => false,
        Some((roots, used)) => {
            let rest = slice_subrange(bytes, used, bytes.len());
            assert(rest@ =~= bytes@.skip(used as int));
            if roots > (rest.len() / MIN_NODE_LEN) as u64 {
                return false;
            }
            read_subtrees(data, rest, roots as usize, 0, MAX_TREE_DEPTH).is_some()
        },
    }
}

/// Whether the tree of forks of an encoded set of GrandPa authorities can be read.
pub fn check_authority_set(bytes: &[u8]) -> (r: bool)
    ensures
        r == authority_set_fits(bytes@),
{
    match scale::read_compact(bytes) {
        None => false,
        Some((authorities, used)) => {
            if authorities > (bytes.len() / 40) as u64 {
                return false;
            }
            let list: usize = 40 * authorities as usize;
            let rest: usize = bytes.len() - used;
            if rest < list || rest - list < 8 {
                return false;
            }
            let at: usize = used + list + 8;
            let tree = slice_subrange(bytes, at, bytes.len());
            assert(tree@ =~= bytes@.skip(at as int));
            check_tree(NodeData::PendingChange, tree)
        },
    }
}

/// Whether the tree of forks at the start of encoded BABE epochs can be read.
pub fn check_epoch_changes(bytes: &[u8]) -> (r: bool)
    ensures
        r == epoch_changes_fits(bytes@),
{
    check_tree(NodeData::EpochHeader, bytes)
}

/// What a node of a tree of forks holds, as mathematical values.
pub enum NodeContent {
    /// A change of the GrandPa authorities.
    PendingChange {
        /// Number of authorities.
        count: nat,
        /// The authorities, forty bytes each.
        authorities: Seq<u8>,
        /// Delay, height and hash: forty bytes.
        fixed: Seq<u8>,
        /// The four bytes that go with a change that is forced.
        forced: Option<Seq<u8>>,
    },
    /// The slots of one BABE epoch: sixteen bytes.
    OneEpoch(Seq<u8>),
    /// The slots of two BABE epochs: thirty-two bytes.
    TwoEpochs(Seq<u8>),
}

/// A node of a tree of forks.
pub struct ForkNode {
    /// Hash and number of the block: thirty-six bytes.
    pub block: Seq<u8>,
    /// What the node holds.
    pub content: NodeContent,
    /// The nodes below.
    pub children: Seq<ForkNode>,
}

/// Whether a content is of the given sort, and its parts have their lengths.
pub open spec fn is_content(data: NodeData, content: NodeContent) -> bool {
    match content {
        NodeContent::PendingChange { count, authorities, fixed, forced } => {
            &&& data == NodeData::PendingChange
            &&& count <= u64::MAX
            &&& authorities.len() == 40 * count
            &&& fixed.len() == 40
            &&& forced matches Some(bytes) ==> bytes.len() == 4
        },
        NodeContent::OneEpoch(bytes) => data == NodeData::EpochHeader && bytes.len() == 16,
        NodeContent::TwoEpochs(bytes) => data == NodeData::EpochHeader && bytes.len() == 32,
    }
}

/// A content, encoded.
pub open spec fn content_encoding(content: NodeContent) -> Seq<u8> {
    match content {
        NodeContent::PendingChange { count, authorities, fixed, forced } => {
            scale::compact_encoding(count) + authorities + fixed + match forced {
                Some(bytes) => seq![1u8] + bytes,
                None => seq![0u8],
            }
        },
        NodeContent::OneEpoch(bytes) => seq![1u8] + bytes,
        NodeContent::TwoEpochs(bytes) => seq![0u8] + bytes,
    }
}

/// Whether all parts of the nodes have their lengths.
pub open spec fn are_nodes(data: NodeData, nodes: Seq<ForkNode>) -> bool
    decreases nodes,
{
    &&& nodes.len() <= u64::MAX
    &&& forall|i: int|
        0 <= i < nodes.len() ==> {
            &&& (#[trigger] nodes[i]).block.len() == 36
            &&& is_content(data, nodes[i].content)
            &&& are_nodes(data, nodes[i].children)
        }
}

/// Nodes, encoded one after the other, each with the nodes below it behind their number.
pub open spec fn nodes_encoding(nodes: Seq<ForkNode>) -> Seq<u8>
    decreases nodes,
    via nodes_encoding_decreases
{
    if nodes.len() == 0 {
        Seq::empty()
    } else {
        nodes[0].block + content_encoding(nodes[0].content) + scale::compact_encoding(
            nodes[0].children.len(),
        ) + nodes_encoding(nodes[0].children) + nodes_encoding(nodes.drop_first())
    }
}

#[via_fn]
proof fn nodes_encoding_decreases(nodes: Seq<ForkNode>) {
    if nodes.len() > 0 {
        assert(decreases_to!(nodes => nodes[0]));
        assert(nodes.drop_first() == nodes.subrange(1, nodes.len() as int));
    }
}

/// Whether the nodes are roots of trees of that many levels at most.
pub open spec fn within(nodes: Seq<ForkNode>, levels: nat) -> bool
    decreases levels,
{
    nodes.len() > 0 ==> levels > 0 && forall|i: int|
        0 <= i < nodes.len() ==> within((#[trigger] nodes[i]).children, (levels - 1) as nat)
}

/// The length of an encoded content is found, whatever it is and whatever comes behind it.
pub proof fn content_is_skipped(data: NodeData, content: NodeContent, rest: Seq<u8>)
    requires
        is_content(data, content),
    ensures
        data_len(data, content_encoding(content) + rest) == Some(content_encoding(content).len()),
        content_encoding(content).len() >= 17,
{
    let all = content_encoding(content) + rest;
    match content {
        NodeContent::PendingChange { count, authorities, fixed, forced } => {
            let code = scale::compact_encoding(count);
            let tail = match forced {
                Some(bytes) => seq![1u8] + bytes,
                None => seq![0u8],
            };
            scale::compact_round_trip(count, authorities + fixed + tail + rest);
            assert(all =~= code + (authorities + fixed + tail + rest));
            let at = code.len() + 40 * count + 40;
            assert(all[at as int] == tail[0]);
        },
        NodeContent::OneEpoch(bytes) => {
            assert(all[0] == 1);
        },
        NodeContent::TwoEpochs(bytes) => {
            assert(all[0] == 0);
        },
    }
}

proof fn lemma_node_head(data: NodeData, node: ForkNode, rest: Seq<u8>)
    requires
        node.block.len() == 36,
        is_content(data, node.content),
        node.children.len() <= u64::MAX,
    ensures
        ({
            let head = node.block + content_encoding(node.content) + scale::compact_encoding(
                node.children.len(),
            );
            &&& node_head(data, head + rest) == Some((node.children.len(), head.len()))
            &&& head.len() >= MIN_NODE_LEN
        }),
{
    let content = content_encoding(node.content);
    let count = scale::compact_encoding(node.children.len());
    let all = node.block + content + count + rest;
    content_is_skipped(data, node.content, count + rest);
    scale::compact_round_trip(node.children.len(), rest);
    assert(all.skip(36) =~= content + (count + rest));
    assert(all.skip((36 + content.len()) as int) =~= count + rest);
}

proof fn lemma_nodes_len(data: NodeData, nodes: Seq<ForkNode>)
    requires
        are_nodes(data, nodes),
    ensures
        nodes_encoding(nodes).len() >= MIN_NODE_LEN * nodes.len(),
    decreases nodes.len(),
{
    if nodes.len() > 0 {
        let rest = nodes.drop_first();
        assert forall|i: int| 0 <= i < rest.len() implies {
            &&& (#[trigger] rest[i]).block.len() == 36
            &&& is_content(data, rest[i].content)
            &&& are_nodes(data, rest[i].children)
        } by {
            assert(rest[i] == nodes[i + 1]);
        }
        lemma_nodes_len(data, rest);
        assert(are_nodes(data, nodes[0].children));
        lemma_node_head(data, nodes[0], Seq::empty());
    }
}

proof fn lemma_within(nodes: Seq<ForkNode>, levels: nat)
    requires
        nodes.len() > 0,
    ensures
        within(nodes, levels) <==> levels > 0 && within(nodes[0].children, (levels - 1) as nat)
            && within(nodes.drop_first(), levels),
{
    let rest = nodes.drop_first();
    if within(nodes, levels) {
        assert forall|i: int| 0 <= i < rest.len() implies within(
            (#[trigger] rest[i]).children,
            (levels - 1) as nat,
        ) by {
            assert(rest[i] == nodes[i + 1]);
        }
    }
    if levels > 0 && within(nodes[0].children, (levels - 1) as nat) && within(rest, levels) {
        assert forall|i: int| 0 <= i < nodes.len() implies within(
            (#[trigger] nodes[i]).children,
            (levels - 1) as nat,
        ) by {
            if i > 0 {
                assert(nodes[i] == rest[i - 1]);
            }
        }
    }
}

/// The head of an encoded node: everything in front of its children.
pub open spec fn head_encoding(node: ForkNode) -> Seq<u8> {
    node.block + content_encoding(node.content) + scale::compact_encoding(node.children.len())
}

proof fn lemma_subtree(
    data: NodeData,
    node: ForkNode,
    behind: Seq<u8>,
    owed: nat,
    depth: nat,
    below: Option<nat>,
)
    requires
        node.block.len() == 36,
        is_content(data, node.content),
        are_nodes(data, node.children),
        MIN_NODE_LEN * owed <= behind.len(),
        depth > 0 ==> below == subtrees_len(
            data,
            nodes_encoding(node.children) + behind,
            node.children.len(),
            owed,
            (depth - 1) as nat,
        ),
    ensures
        subtree_len(
            data,
            head_encoding(node) + (nodes_encoding(node.children) + behind),
            owed,
            depth,
        ) == match below {
            Some(len) if depth > 0 => Some(head_encoding(node).len() + len),
            _ => None,
        },
        head_encoding(node).len() > 0,
{
    let head = head_encoding(node);
    let inner = nodes_encoding(node.children) + behind;
    lemma_nodes_len(data, node.children);
    lemma_node_head(data, node, inner);
    assert((head + inner).skip(head.len() as int) =~= inner);
    assert(MIN_NODE_LEN * (node.children.len() + owed) <= inner.len());
}

proof fn lemma_siblings(data: NodeData, nodes: Seq<ForkNode>)
    requires
        are_nodes(data, nodes),
        nodes.len() > 0,
    ensures
        are_nodes(data, nodes.drop_first()),
        nodes[0].block.len() == 36,
        is_content(data, nodes[0].content),
        are_nodes(data, nodes[0].children),
        nodes_encoding(nodes) == head_encoding(nodes[0]) + nodes_encoding(nodes[0].children)
            + nodes_encoding(nodes.drop_first()),
{
    let siblings = nodes.drop_first();
    assert forall|i: int| 0 <= i < siblings.len() implies {
        &&& (#[trigger] siblings[i]).block.len() == 36
        &&& is_content(data, siblings[i].content)
        &&& are_nodes(data, siblings[i].children)
    } by {
        assert(siblings[i] == nodes[i + 1]);
    }
}

/// The length of encoded subtrees is found if and only if they are not too deep, whatever they hold
/// and whatever comes behind them.
pub proof fn subtrees_are_skipped(
    data: NodeData,
    nodes: Seq<ForkNode>,
    rest: Seq<u8>,
    owed: nat,
    depth: nat,
)
    requires
        are_nodes(data, nodes),
        MIN_NODE_LEN * owed <= rest.len(),
    ensures
        subtrees_len(data, nodes_encoding(nodes) + rest, nodes.len(), owed, depth) == if within(
            nodes,
            depth,
        ) {
            Some(nodes_encoding(nodes).len())
        } else {
            None
        },
    decreases nodes,
{
    if nodes.len() > 0 {
        let node = nodes[0];
        let siblings = nodes.drop_first();
        assert(decreases_to!(nodes => nodes[0]));
        assert(siblings == nodes.subrange(1, nodes.len() as int));
        lemma_siblings(data, nodes);
        let head = head_encoding(node);
        let inner = nodes_encoding(node.children);
        let behind = nodes_encoding(siblings) + rest;
        let all = nodes_encoding(nodes) + rest;
        let others = (owed + nodes.len() - 1) as nat;
        lemma_nodes_len(data, siblings);
        assert(MIN_NODE_LEN * others <= behind.len());
        let below = if depth > 0 {
            subtrees_len(data, inner + behind, node.children.len(), others, (depth - 1) as nat)
        } else {
            None
        };
        if depth > 0 {
            subtrees_are_skipped(data, node.children, behind, others, (depth - 1) as nat);
        }
        lemma_subtree(data, node, behind, others, depth, below);
        subtrees_are_skipped(data, siblings, rest, owed, depth);
        lemma_within(nodes, depth);
        assert(all =~= head + (inner + behind));
        assert(all.skip((head.len() + inner.len()) as int) =~= behind);
        lemma_unfold_subtrees(data, all, nodes.len(), owed, depth);
    } else {
        assert(nodes_encoding(nodes) + rest =~= rest);
    }
}

proof fn lemma_unfold_subtrees(
    data: NodeData,
    bytes: Seq<u8>,
    count: nat,
    owed: nat,
    depth: nat,
)
    requires
        count > 0,
    ensures
        subtrees_len(data, bytes, count, owed, depth) == match subtree_len(
            data,
            bytes,
            (owed + count - 1) as nat,
            depth,
        ) {
            None => None,
            Some(first) => if first == 0 || first > bytes.len() {
                None
            } else {
                match subtrees_len(
                    data,
                    bytes.skip(first as int),
                    (count - 1) as nat,
                    owed,
                    depth,
                ) {
                    None => None,
                    Some(rest) => Some(first + rest),
                }
            },
        },
{
}

/// A tree of forks, encoded: the nodes at its root, behind their number.
pub open spec fn tree_encoding(roots: Seq<ForkNode>) -> Seq<u8> {
    scale::compact_encoding(roots.len()) + nodes_encoding(roots)
}

proof fn lemma_tree_fits(data: NodeData, roots: Seq<ForkNode>, rest: Seq<u8>)
    requires
        are_nodes(data, roots),
    ensures
        tree_fits(data, tree_encoding(roots) + rest) <==> within(roots, 128),
{
    let code = scale::compact_encoding(roots.len());
    let all = tree_encoding(roots) + rest;
    scale::compact_round_trip(roots.len(), nodes_encoding(roots) + rest);
    assert(all =~= code + (nodes_encoding(roots) + rest));
    assert(all.skip(code.len() as int) =~= nodes_encoding(roots) + rest);
    lemma_nodes_len(data, roots);
    subtrees_are_skipped(data, roots, rest, 0, 128);
}

/// Encoded BABE epochs can be read if and only if their tree of forks has one hundred and
/// twenty-eight levels at most, however many nodes it has and whatever comes behind it.
pub proof fn epoch_changes_are_accepted(roots: Seq<ForkNode>, rest: Seq<u8>)
    requires
        are_nodes(NodeData::EpochHeader, roots),
    ensures
        epoch_changes_fits(tree_encoding(roots) + rest) <==> within(roots, 128),
{
    lemma_tree_fits(NodeData::EpochHeader, roots, rest);
}

/// An encoded set of GrandPa authorities, of any number of authorities, can be read if and only if
/// its tree of forks has one hundred and twenty-eight levels at most, whatever comes behind it.
pub proof fn authority_set_is_accepted(
    count: nat,
    authorities: Seq<u8>,
    set_id: Seq<u8>,
    roots: Seq<ForkNode>,
    rest: Seq<u8>,
)
    requires
        count <= u64::MAX,
        authorities.len() == 40 * count,
        set_id.len() == 8,
        are_nodes(NodeData::PendingChange, roots),
    ensures
        authority_set_fits(
            scale::compact_encoding(count) + authorities + set_id + tree_encoding(roots) + rest,
        ) <==> within(roots, 128),
{
    let code = scale::compact_encoding(count);
    let tree = tree_encoding(roots) + rest;
    let all = code + authorities + set_id + tree_encoding(roots) + rest;
    scale::compact_round_trip(count, authorities + set_id + tree);
    assert(all =~= code + (authorities + set_id + tree));
    assert(all.skip((code.len() + 40 * count + 8) as int) =~= tree);
    lemma_tree_fits(NodeData::PendingChange, roots, rest);
}

/// A tree of forks that declares more nodes at its root than there is room for is refused.
pub proof fn tree_without_room_is_refused(data: NodeData, roots: nat, rest: Seq<u8>)
    requires
        roots <= u64::MAX,
        rest.len() < 54 * roots,
    ensures
        !tree_fits(data, scale::compact_encoding(roots) + rest),
{
    let code = scale::compact_encoding(roots);
    scale::compact_round_trip(roots, rest);
    assert((code + rest).skip(code.len() as int) =~= rest);
}

/// A node that declares more children than there is room for, next to the nodes that are still to
/// come, is refused.
pub proof fn node_without_room_is_refused(
    data: NodeData,
    block: Seq<u8>,
    content: NodeContent,
    children: nat,
    rest: Seq<u8>,
    owed: nat,
    depth: nat,
)
    requires
        block.len() == 36,
        is_content(data, content),
        children <= u64::MAX,
        rest.len() < 54 * (children + owed),
    ensures
        subtree_len(
            data,
            block + content_encoding(content) + scale::compact_encoding(children) + rest,
            owed,
            depth,
        ) is None,
{
    let code = content_encoding(content);
    let count = scale::compact_encoding(children);
    let all = block + code + count + rest;
    content_is_skipped(data, content, count + rest);
    scale::compact_round_trip(children, rest);
    assert(all.skip(36) =~= code + (count + rest));
    assert(all.skip((36 + code.len()) as int) =~= count + rest);
}

/// A content is made of bytes that are there, and does not depend on what comes behind it. If the
/// last of its bytes is missing, there is no content.
pub proof fn content_is_all_there(data: NodeData, bytes: Seq<u8>, k: int)
    ensures
        data_len(data, bytes) matches Some(len) ==> {
            &&& 17 <= len <= bytes.len()
            &&& 0 <= k < len ==> data_len(data, bytes.take(k)) is None
        },
{
    if let Some(len) = data_len(data, bytes) {
        match data {
            NodeData::PendingChange => {
                let (authorities, used) = scale::compact(bytes)->Some_0;
                scale::compact_number_is_all_there(bytes, Seq::empty(), k);
                if used <= k < len {
                    let cut = bytes.take(k);
                    scale::compact_number_is_all_there(
                        bytes,
                        cut.skip(used as int),
                        0,
                    );
                    assert(cut =~= bytes.take(used as int) + cut.skip(used as int));
                    let at = used + 40 * authorities + 40;
                    if k > at {
                        assert(cut[at as int] == bytes[at as int]);
                    }
                }
            },
            NodeData::EpochHeader => {
                if 0 < k < len {
                    assert(bytes.take(k)[0] == bytes[0]);
                }
            },
        }
    }
}

/// A content that is neither of one sort nor of the other is refused: the slots are those of one
/// epoch or of two, and a change is forced or not.
pub proof fn unknown_content_is_refused(
    count: nat,
    authorities: Seq<u8>,
    fixed: Seq<u8>,
    sort: u8,
    rest: Seq<u8>,
)
    requires
        count <= u64::MAX,
        authorities.len() == 40 * count,
        fixed.len() == 40,
        sort > 1,
    ensures
        data_len(NodeData::EpochHeader, seq![sort] + rest) is None,
        data_len(
            NodeData::PendingChange,
            scale::compact_encoding(count) + authorities + fixed + seq![sort] + rest,
        ) is None,
{
    let code = scale::compact_encoding(count);
    let all = code + authorities + fixed + seq![sort] + rest;
    scale::compact_round_trip(count, authorities + fixed + seq![sort] + rest);
    assert(all =~= code + (authorities + fixed + seq![sort] + rest));
    assert(all[(code.len() + 40 * count + 40) as int] == sort);
}

/// A subtree that is read is made of bytes that are there, and leaves room behind it for the nodes
/// that are still to come. It has a level at least.
pub proof fn subtree_is_all_there(data: NodeData, bytes: Seq<u8>, owed: nat, depth: nat)
    ensures
        subtree_len(data, bytes, owed, depth) matches Some(len) ==> {
            &&& depth > 0
            &&& 54 <= len
            &&& len + 54 * owed <= bytes.len()
        },
    decreases bytes.len(), 0int,
{
    if let Some(len) = subtree_len(data, bytes, owed, depth) {
        let (children, head) = node_head(data, bytes)->Some_0;
        let content = bytes.skip(36);
        content_is_all_there(data, content, 0);
        let used = data_len(data, content)->Some_0;
        scale::compact_number_is_all_there(bytes.skip((36 + used) as int), Seq::empty(), 0);
        subtrees_are_all_there(
            data,
            bytes.skip(head as int),
            children,
            owed,
            (depth - 1) as nat,
        );
    }
}

/// Subtrees that are read are made of bytes that are there, fifty-four for each of them at least,
/// and leave room behind them for the nodes that are still to come.
pub proof fn subtrees_are_all_there(
    data: NodeData,
    bytes: Seq<u8>,
    count: nat,
    owed: nat,
    depth: nat,
)
    ensures
        subtrees_len(data, bytes, count, owed, depth) matches Some(len) ==> {
            &&& 54 * count <= len <= bytes.len()
            &&& count > 0 ==> depth > 0 && len + 54 * owed <= bytes.len()
            &&& count == 0 ==> len == 0
        },
    decreases bytes.len(), 1int,
{
    if count > 0 {
        if let Some(len) = subtrees_len(data, bytes, count, owed, depth) {
            subtree_is_all_there(data, bytes, (owed + count - 1) as nat, depth);
            let first = subtree_len(data, bytes, (owed + count - 1) as nat, depth)->Some_0;
            subtrees_are_all_there(
                data,
                bytes.skip(first as int),
                (count - 1) as nat,
                owed,
                depth,
            );
        }
    }
}

/// A node whose content cannot be read is refused, and so is one that ends before its content.
pub proof fn node_without_content_is_refused(
    data: NodeData,
    block: Seq<u8>,
    content: Seq<u8>,
    owed: nat,
    depth: nat,
)
    requires
        block.len() < 36 && content.len() == 0 || block.len() == 36 && data_len(
            data,
            content,
        ) is None,
    ensures
        subtree_len(data, block + content, owed, depth) is None,
{
    if block.len() == 36 {
        assert((block + content).skip(36) =~= content);
    }
}

/// A set of authorities that declares more of them than it lists, or whose identifier is missing, is
/// refused, and so is one whose number of authorities is cut short.
pub proof fn authority_set_cut_short_is_refused(count: nat, rest: Seq<u8>, k: int)
    requires
        count <= u64::MAX,
        rest.len() < 40 * count + 8,
    ensures
        !authority_set_fits(scale::compact_encoding(count) + rest),
        0 <= k < scale::compact_encoding(count).len() ==> !authority_set_fits(
            scale::compact_encoding(count).take(k),
        ),
{
    scale::compact_round_trip(count, rest);
    if 0 <= k < scale::compact_encoding(count).len() {
        scale::compact_cut_short_is_refused(count, k);
    }
}

} // verus!
