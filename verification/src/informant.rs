//! The line of text that tells the user where the node stands.

use crate::cli::{ColorChoice, Output};
use crate::header;
use crate::text;
use vstd::prelude::*;
use vstd::string::*;

verus! {

/// Number of milliseconds between two informant lines.
pub const INFORMANT_INTERVAL_MILLIS: u64 = 100;

/// Width of a line where that of the terminal is not known.
pub const DEFAULT_LINE_WIDTH: u32 = 80;

/// What the network tells the node.
pub enum NetworkEvent {
    /// A block was announced.
    BlockAnnounce {
        /// Chain that the block belongs to.
        chain_index: usize,
        /// Header of the block, encoded.
        scale_encoded_header: Vec<u8>,
    },
    /// A peer connected.
    Connected {
        /// Chain that the peer follows.
        chain_index: usize,
        /// Number of the best block of the peer.
        best_block_number: u64,
    },
    /// Anything else.
    Other,
}

/// The number of a block that the network has on the first chain, if the event tells of one. A
/// block whose header is not valid does not count.
pub open spec fn reported_number(event: NetworkEvent, block_number_bytes: u8) -> Option<u64> {
    match event {
        NetworkEvent::BlockAnnounce { chain_index, scale_encoded_header } => if chain_index == 0 {
            match header::decoded_header(scale_encoded_header@, block_number_bytes as usize) {
                Some((_, number)) => Some(number),
                None => None,
            }
        } else {
            None
        },
        NetworkEvent::Connected { chain_index, best_block_number } => if chain_index == 0 {
            Some(best_block_number)
        } else {
            None
        },
        NetworkEvent::Other => None,
    }
}

/// The best number known after a report: the greater of the two.
pub open spec fn raised(best: Option<u64>, reported: Option<u64>) -> Option<u64> {
    match (best, reported) {
        (Some(b), Some(n)) => if b >= n {
            Some(b)
        } else {
            Some(n)
        },
        (None, Some(n)) => Some(n),
        (_, None) => best,
    }
}

/// The best number known after a list of reports, starting from nothing.
pub open spec fn best_after(reports: Seq<Option<u64>>) -> Option<u64>
    decreases reports.len(),
{
    if reports.len() == 0 {
        None
    } else {
        raised(best_after(reports.drop_last()), reports.last())
    }
}

/// The best number known is the greatest of those that were reported, and nothing is known as
/// long as none was.
pub proof fn known_best_is_maximum(reports: Seq<Option<u64>>)
    ensures
        match best_after(reports) {
            None => forall|i: int| 0 <= i < reports.len() ==> (#[trigger] reports[i]) is None,
            Some(best) => {
                &&& exists|i: int| 0 <= i < reports.len() && #[trigger] reports[i] == Some(best)
                &&& forall|i: int|
                    0 <= i < reports.len() ==> ((#[trigger] reports[i]) matches Some(n) ==> n
                        <= best)
            },
        },
    decreases reports.len(),
{
    if reports.len() > 0 {
        let before = reports.drop_last();
        known_best_is_maximum(before);
        assert forall|i: int| 0 <= i < before.len() implies (#[trigger] reports[i])
            == before[i] by {}
        if let Some(best) = best_after(reports) {
            if best_after(before) == Some(best) {
                let i = choose|i: int| 0 <= i < before.len() && #[trigger] before[i] == Some(best);
                assert(reports[i] == Some(best));
            } else {
                assert(reports[reports.len() - 1] == Some(best));
            }
        }
    }
}

/// A report never lowers the best number known.
pub proof fn known_best_never_decreases(best: Option<u64>, reported: Option<u64>)
    ensures
        best matches Some(b) ==> (raised(best, reported) matches Some(r) && b <= r),
{
}

/// The best block number that the network is known to have, on the first chain.
pub struct KnownBest {
    number: Option<u64>,
}

impl View for KnownBest {
    type V = Option<u64>;

    closed spec fn view(&self) -> Option<u64> {
        self.number
    }
}

impl KnownBest {
    /// Nothing is known.
    pub fn new() -> (r: KnownBest)
        ensures
            r@ is None,
    {
        KnownBest { number: None }
    }

    /// The best number known, if any.
    pub fn number(&self) -> (r: Option<u64>)
        ensures
            r == self@,
    {
        self.number
    }

    /// Takes into account a number that was reported, if any was.
    pub fn observe(&mut self, reported: Option<u64>)
        ensures
            final(self)@ == raised(old(self)@, reported),
    {
        match (self.number, reported) {
            (Some(n), Some(new)) if n >= new => {},
            (_, Some(new)) => {
                self.number = Some(new);
            },
            (_, None) => {},
        }
    }

    /// Takes an event of the network into account.
    pub fn on_network_event(&mut self, event: &NetworkEvent, block_number_bytes: u8)
        ensures
            final(self)@ == raised(old(self)@, reported_number(*event, block_number_bytes)),
    {
        match event {
            NetworkEvent::BlockAnnounce { chain_index, scale_encoded_header } => {
                if *chain_index == 0 {
                    let decoded = header::decode(
                        scale_encoded_header.as_slice(),
                        block_number_bytes,
                    );
                    self.observe(
                        match decoded {
                            Some(header) => Some(header.number),
                            None => None,
                        },
                    );
                }
            },
            NetworkEvent::Connected { chain_index, best_block_number } => {
                if *chain_index == 0 {
                    self.observe(Some(*best_block_number));
                }
            },
            NetworkEvent::Other => {},
        }
    }
}

/// Number of milliseconds between two informant lines, if they are printed at all.
pub fn informant_interval(output: Output) -> (r: Option<u64>)
    ensures
        r == if output == Output::Informant {
            Some(INFORMANT_INTERVAL_MILLIS)
        } else {
            None
        },
        output == Output::Informant ==> r == Some(100u64),
{
    if let Output::Informant = output {
        Some(INFORMANT_INTERVAL_MILLIS)
    } else {
        None
    }
}

/// State of the synchronization of a chain.
pub struct SyncState {
    /// Number of the best block.
    pub best_block_number: u64,
    /// Hash of the best block.
    pub best_block_hash: [u8; 32],
    /// Number of the latest finalized block.
    pub finalized_block_number: u64,
    /// Hash of the latest finalized block.
    pub finalized_block_hash: [u8; 32],
}

/// What the informant line shows.
pub struct InformantState<'a> {
    /// Whether the line is coloured.
    pub color: ColorChoice,
    /// Name of the chain.
    pub chain_name: &'a str,
    /// Name and best block number of the relay chain, if there is one.
    pub relay_chain: Option<(&'a str, u64)>,
    /// Width of the terminal, if known.
    pub terminal_width: Option<u16>,
    /// Number of peers on the chain.
    pub num_peers: usize,
    /// Number of connections of any kind.
    pub num_connections: usize,
    /// State of the synchronization of the chain.
    pub sync: &'a SyncState,
    /// Best block number that the network is known to have.
    pub network_known_best: Option<u64>,
}

/// Maximum width of a line on a terminal.
pub open spec fn line_width(terminal_width: Option<u16>) -> u32 {
    match terminal_width {
        Some(width) => width as u32,
        None => DEFAULT_LINE_WIDTH,
    }
}

/// Number of columns that the informant line sets aside in front of the progress bar.
pub open spec fn columns_before_bar(
    chain_name: Seq<char>,
    relay_chain: Option<(Seq<char>, u64)>,
) -> int {
    match relay_chain {
        Some((name, _)) => chain_name.len() + vstd::utf8::encode_utf8(name).len() as int + 27,
        None => chain_name.len() + 17int,
    }
}

/// The greater of two numbers.
pub open spec fn at_least(a: int, b: int) -> int {
    if a < b {
        b
    } else {
        a
    }
}

/// Number of columns that the informant line sets aside behind the progress bar.
pub open spec fn columns_after_bar(network_known_best: Option<u64>, num_connections: u64) -> int {
    let best = match network_known_best {
        Some(number) => 1 + text::decimal(number as nat).len() as int,
        None => 1int,
    };
    let digits = text::decimal(num_connections as nat).len() as int;
    15 + best + at_least(digits, 3) + at_least(digits, 4)
}

/// Whether there is a column left for the progress bar.
pub open spec fn bar_fits(
    chain_name: Seq<char>,
    relay_chain: Option<(Seq<char>, u64)>,
    max_line_width: u32,
    num_connections: u64,
    network_known_best: Option<u64>,
) -> bool {
    columns_before_bar(chain_name, relay_chain) + columns_after_bar(
        network_known_best,
        num_connections,
    ) < max_line_width
}

/// The relay chain that a line shows, by its characters.
pub open spec fn relay_view(relay_chain: Option<(&str, u64)>) -> Option<(Seq<char>, u64)> {
    match relay_chain {
        Some((name, number)) => Some((name@, number)),
        None => None,
    }
}

/// The text of `smoldot::informant::InformantLine`, given its fields: whether colours are
/// enabled, name of the chain, name and best number of the relay chain, maximum width, number of
/// peers, number of connections, best number known to the network, best number, best hash,
/// finalized number and finalized hash.
pub uninterp spec fn informant_text(
    enable_colors: bool,
    chain_name: Seq<char>,
    relay_chain: Option<(Seq<char>, u64)>,
    max_line_width: u32,
    num_peers: u64,
    num_connections: u64,
    network_known_best: Option<u64>,
    best_number: u64,
    best_hash: Seq<u8>,
    finalized_number: u64,
    finalized_hash: Seq<u8>,
) -> Seq<char>;

/// Formats a `smoldot::informant::InformantLine`. The text is trusted to depend on the fields
/// alone. Without a column for the progress bar the outside code panics.
#[verifier::external_body]
fn format_informant(
    enable_colors: bool,
    chain_name: &str,
    relay: Option<(&str, u64)>,
    max_line_width: u32,
    num_peers: u64,
    num_network_connections: u64,
    network_known_best: Option<u64>,
    sync: &SyncState,
) -> (r: String)
    requires
        bar_fits(
            chain_name@,
            relay_view(relay),
            max_line_width,
            num_network_connections,
            network_known_best,
        ),
    ensures
        r@ == informant_text(
            enable_colors,
            chain_name@,
            relay_view(relay),
            max_line_width,
            num_peers,
            num_network_connections,
            network_known_best,
            sync.best_block_number,
            sync.best_block_hash@,
            sync.finalized_block_number,
            sync.finalized_block_hash@,
        ),
{
    let (best_number, best_hash) = (sync.best_block_number, &sync.best_block_hash[..]);
    let (finalized_number, finalized_hash) = (sync.finalized_block_number, &sync.finalized_block_hash[..]);
    let relay_chain = match relay {
        Some((chain_name, best_number)) => Some(smoldot::informant::RelayChain { chain_name, best_number }),
        None => None,
    };
    format!("{}", smoldot::informant::InformantLine {
        enable_colors, chain_name, relay_chain, max_line_width, num_peers,
        num_network_connections, network_known_best, best_number, best_hash,
        finalized_number, finalized_hash,
    })
}

/// Whether the informant line has a column left for its progress bar.
pub fn informant_fits(state: &InformantState<'_>) -> (r: bool)
    ensures
        r == bar_fits(
            state.chain_name@,
            relay_view(state.relay_chain),
            line_width(state.terminal_width),
            state.num_connections as u64,
            state.network_known_best,
        ),
{
    let before: u128 = match state.relay_chain {
        Some((name, _)) => {
            state.chain_name.unicode_len() as u128 + name.as_bytes().len() as u128 + 27
        },
        None => state.chain_name.unicode_len() as u128 + 17,
    };
    let best: u64 = match state.network_known_best {
        Some(number) => 1 + text::decimal_len(number),
        None => 1,
    };
    let digits: u64 = text::decimal_len(state.num_connections as u64);
    let peers: u64 = if digits < 3 {
        3
    } else {
        digits
    };
    let connections: u64 = if digits < 4 {
        4
    } else {
        digits
    };
    let after: u128 = 15 + best as u128 + peers as u128 + connections as u128;
    before + after < max_line_width(state.terminal_width) as u128
}

/// Maximum width of a line on a terminal: its width, or eighty columns if it is not known.
pub fn max_line_width(terminal_width: Option<u16>) -> (r: u32)
    ensures
        r == line_width(terminal_width),
{
    match terminal_width {
        Some(width) => width as u32,
        None => DEFAULT_LINE_WIDTH,
    }
}

/// The informant line. It ends with a carriage return, so that whatever is printed next
/// overwrites it. Returns `None` where the line is too narrow for it.
pub fn informant_line(state: &InformantState<'_>) -> (r: Option<String>)
    ensures
        r is Some <==> bar_fits(
            state.chain_name@,
            relay_view(state.relay_chain),
            line_width(state.terminal_width),
            state.num_connections as u64,
            state.network_known_best,
        ),
        r matches Some(line) ==> line@ == informant_text(
            state.color == ColorChoice::Always,
            state.chain_name@,
            relay_view(state.relay_chain),
            line_width(state.terminal_width),
            state.num_peers as u64,
            state.num_connections as u64,
            state.network_known_best,
            state.sync.best_block_number,
            state.sync.best_block_hash@,
            state.sync.finalized_block_number,
            state.sync.finalized_block_hash@,
        ).push('\r'),
{
    if !informant_fits(state) {
        return None;
    }
    let enable_colors = match state.color {
        ColorChoice::Always => true,
        ColorChoice::Never => false,
    };
    let line = format_informant(
        enable_colors,
        state.chain_name,
        state.relay_chain,
        max_line_width(state.terminal_width),
        state.num_peers as u64,
        state.num_connections as u64,
        state.network_known_best,
        state.sync,
    );
    Some(overwriting(line))
}

/// A line that overwrites itself: ends it with a carriage return.
pub fn overwriting(line: String) -> (r: String)
    ensures
        r@ == line@.push('\r'),
{
    proof {
        reveal_strlit("\r");
    }
    let r = line.concat("\r");
    assert(r@ =~= line@.push('\r'));
    r
}

/// A block that is announced on the first chain is reported with the number in its header, if this
/// is valid. A peer that connects on the first chain reports its best block. Nothing else reports
/// anything, and nothing on another chain does.
pub proof fn only_the_first_chain_reports(
    chain_index: usize,
    scale_encoded_header: Vec<u8>,
    best_block_number: u64,
    block_number_bytes: u8,
)
    ensures
        ({
            let announce = NetworkEvent::BlockAnnounce { chain_index, scale_encoded_header };
            let decoded = header::decoded_header(
                scale_encoded_header@,
                block_number_bytes as usize,
            );
            &&& chain_index == 0 ==> (decoded matches Some((_, number)) ==> reported_number(
                announce,
                block_number_bytes,
            ) == Some(number))
            &&& chain_index != 0 || decoded is None ==> reported_number(
                announce,
                block_number_bytes,
            ) is None
        }),
        ({
            let connected = NetworkEvent::Connected { chain_index, best_block_number };
            &&& chain_index == 0 ==> reported_number(connected, block_number_bytes) == Some(
                best_block_number,
            )
            &&& chain_index != 0 ==> reported_number(connected, block_number_bytes) is None
        }),
        reported_number(NetworkEvent::Other, block_number_bytes) is None,
{
}

/// A report that is greater than what is known becomes known, and nothing but what was known or
/// reported does.
pub proof fn greater_reports_become_known(best: Option<u64>, reported: u64)
    ensures
        raised(best, None) == best,
        raised(best, Some(reported)) is Some,
        raised(best, Some(reported)) == best || raised(best, Some(reported)) == Some(reported),
        raised(best, Some(reported)) matches Some(r) ==> r >= reported,
        best is None ==> raised(best, Some(reported)) == Some(reported),
{
}

/// A line is as wide as the terminal, and has eighty columns if the width is not known.
pub proof fn line_is_as_wide_as_the_terminal(width: u16)
    ensures
        line_width(Some(width)) == width,
        line_width(None) == 80,
{
}

/// The relay chain is shown with its name and its number, if there is one.
pub proof fn relay_chain_is_kept(name: &str, number: u64)
    ensures
        relay_view(Some((name, number))) == Some((name@, number)),
        relay_view(None) is None,
{
}

/// There is a column left for the progress bar if and only if the line is wider than what stands
/// beside the bar: the name of the chain and that of the relay chain, the best number that the
/// network is known to have, and the number of connections. Below one thousand, the latter takes
/// seven columns in all, and otherwise two for each digit.
pub proof fn bar_fits_where_a_column_is_left(
    chain_name: Seq<char>,
    relay_chain: Option<(Seq<char>, u64)>,
    max_line_width: u32,
    num_connections: u64,
    network_known_best: Option<u64>,
)
    ensures
        ({
            let relay = match relay_chain {
                Some((name, _)) => 10 + vstd::utf8::encode_utf8(name).len(),
                None => 0,
            };
            let best = match network_known_best {
                Some(number) => text::decimal(number as nat).len(),
                None => 0,
            };
            let connections = if num_connections < 1000 {
                7
            } else {
                2 * text::decimal(num_connections as nat).len()
            };
            bar_fits(
                chain_name,
                relay_chain,
                max_line_width,
                num_connections,
                network_known_best,
            ) <==> chain_name.len() + relay + best + connections + 34 <= max_line_width
        }),
{
    if num_connections < 1000 {
        reveal_with_fuel(text::decimal, 3);
    } else {
        reveal_with_fuel(text::decimal, 4);
        assert(text::decimal((num_connections / 1000) as nat).len() >= 1) by {
            text::lemma_decimal_len((num_connections / 1000) as nat);
        }
    }
}

/// A bar that fits in a line fits in a wider one, and fits if the name of the chain is shorter or
/// there is no relay chain to show.
pub proof fn wider_line_has_room_too(
    chain_name: Seq<char>,
    shorter_name: Seq<char>,
    relay_chain: Option<(Seq<char>, u64)>,
    max_line_width: u32,
    wider: u32,
    num_connections: u64,
    network_known_best: Option<u64>,
)
    requires
        bar_fits(
            chain_name,
            relay_chain,
            max_line_width,
            num_connections,
            network_known_best,
        ),
        shorter_name.len() <= chain_name.len(),
        max_line_width <= wider,
    ensures
        bar_fits(shorter_name, relay_chain, wider, num_connections, network_known_best),
        bar_fits(shorter_name, None, wider, num_connections, network_known_best),
        bar_fits(shorter_name, relay_chain, wider, num_connections, None),
{
}

} // verus!
