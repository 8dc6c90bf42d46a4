//! Opening the database of a chain.

use crate::genesis::{self, GenesisStorage};
use crate::header;
use vstd::prelude::*;
use vstd::string::*;

verus! {

/// Number of heap pages of the runtime of a chain that does not specify one.
pub const DEFAULT_HEAP_PAGES: u32 = 2048;

/// State version of a runtime that does not specify one.
pub const DEFAULT_STATE_VERSION: u8 = 0;

/// Number of milliseconds before the user is told that the database is being opened.
pub const PROGRESS_DELAY_MILLIS: u64 = 200;

/// What was found at the place of a database.
#[derive(Clone, Copy, Debug)]
pub enum DatabaseFound {
    /// A database that contains data. Holds the hash of its first block, if it has one.
    Existing(Option<[u8; 32]>),
    /// A database that is new or empty.
    Empty,
}

/// What to do with a database that was opened.
#[derive(Clone, Copy, Debug, PartialEq, Eq, Structural)]
pub enum OpenedDatabase {
    /// Use it as it is.
    UseExisting,
    /// Fill it with the genesis block.
    Initialize,
}

/// Why a database cannot be used.
#[derive(Clone, Copy, Debug, PartialEq, Eq, Structural)]
pub enum DatabaseError {
    /// The database has no first block.
    NoGenesisBlock,
    /// The database is that of another chain.
    ChainMismatch,
}

/// What to do with what was found at the place of a database, given the hash of the genesis block
/// of the chain.
pub open spec fn opened_database(found: DatabaseFound, genesis_hash: Seq<u8>) -> Result<
    OpenedDatabase,
    DatabaseError,
> {
    match found {
        DatabaseFound::Empty => Ok(OpenedDatabase::Initialize),
        DatabaseFound::Existing(None) => Err(DatabaseError::NoGenesisBlock),
        DatabaseFound::Existing(Some(hash)) => if hash@ == genesis_hash {
            Ok(OpenedDatabase::UseExisting)
        } else {
            Err(DatabaseError::ChainMismatch)
        },
    }
}

/// Decides what to do with what was found at the place of a database, given the hash of the
/// genesis block of the chain.
pub fn on_database_found_with(found: DatabaseFound, genesis_hash: &[u8; 32]) -> (r: Result<
    OpenedDatabase,
    DatabaseError,
>)
    ensures
        r == opened_database(found, genesis_hash@),
{
    match found {
        DatabaseFound::Empty => Ok(OpenedDatabase::Initialize),
        DatabaseFound::Existing(None) => Err(DatabaseError::NoGenesisBlock),
        DatabaseFound::Existing(Some(hash)) => {
            if genesis::same_bytes(hash.as_slice(), genesis_hash.as_slice()) {
                Ok(OpenedDatabase::UseExisting)
            } else {
                Err(DatabaseError::ChainMismatch)
            }
        },
    }
}

/// Decides what to do with what was found at the place of a database, given the encoded header of
/// the genesis block of the chain.
pub fn on_database_found(found: DatabaseFound, genesis_header: &[u8]) -> (r: Result<
    OpenedDatabase,
    DatabaseError,
>)
    ensures
        r == opened_database(found, header::header_hash(genesis_header@)),
{
    on_database_found_with(found, &header::hash(genesis_header))
}

/// Whether a database existed before it was opened.
pub open spec fn existed(opened: OpenedDatabase) -> bool {
    opened == OpenedDatabase::UseExisting
}

/// Whether a database existed before it was opened.
pub fn database_existed(opened: OpenedDatabase) -> (r: bool)
    ensures
        r == existed(opened),
{
    match opened {
        OpenedDatabase::UseExisting => true,
        OpenedDatabase::Initialize => false,
    }
}

/// Why a number of heap pages is not valid.
#[derive(Clone, Copy, Debug, PartialEq, Eq, Structural)]
pub enum HeapPagesError {
    /// It does not consist of eight bytes.
    WrongLength,
    /// It does not fit in thirty-two bits.
    TooLarge,
}

/// The number of heap pages that a storage value stands for: eight bytes, the least significant
/// one first.
pub open spec fn heap_pages_of(value: Option<Seq<u8>>) -> Result<u32, HeapPagesError> {
    match value {
        None => Ok(DEFAULT_HEAP_PAGES),
        Some(bytes) => if bytes.len() != 8 {
            Err(HeapPagesError::WrongLength)
        } else if bytes[4] != 0 || bytes[5] != 0 || bytes[6] != 0 || bytes[7] != 0 {
            Err(HeapPagesError::TooLarge)
        } else {
            Ok((bytes[0] + 0x100 * bytes[1] + 0x10000 * bytes[2] + 0x1000000 * bytes[3]) as u32)
        },
    }
}

/// Calls `smoldot::executor::storage_heap_pages_to_value`. It is trusted to return two thousand
/// and forty-eight pages if there is no value, to refuse a value that is not eight bytes long,
/// then one that does not fit in thirty-two bits, and to read all others with the least
/// significant byte first.
#[verifier::external_body]
fn heap_pages(value: Option<&[u8]>) -> (r: Result<u32, HeapPagesError>)
    ensures
        r == heap_pages_of(
            match value {
                Some(bytes) => Some(bytes@),
                None => None,
            },
        ),
{
    match smoldot::executor::storage_heap_pages_to_value(value) {
        Ok(pages) => Ok(pages.into()),
        Err(smoldot::executor::InvalidHeapPagesError::WrongLen) => Err(HeapPagesError::WrongLength),
        Err(smoldot::executor::InvalidHeapPagesError::TooLarge) => Err(HeapPagesError::TooLarge),
    }
}

/// The storage key of the code of the runtime: `:code`.
pub open spec fn code_key() -> Seq<u8> {
    seq![0x3au8, 0x63u8, 0x6fu8, 0x64u8, 0x65u8]
}

/// The storage key of the number of heap pages of the runtime: `:heappages`.
pub open spec fn heap_pages_key() -> Seq<u8> {
    seq![0x3au8, 0x68u8, 0x65u8, 0x61u8, 0x70u8, 0x70u8, 0x61u8, 0x67u8, 0x65u8, 0x73u8]
}

/// What the runtime of the genesis block is compiled from.
pub struct RuntimeSource {
    /// The code of the runtime.
    pub code: Vec<u8>,
    /// Number of heap pages of the runtime.
    pub heap_pages: u32,
}

/// Why the runtime of the genesis block cannot be compiled.
#[derive(Clone, Copy, Debug, PartialEq, Eq, Structural)]
pub enum RuntimeSourceError {
    /// The storage contains no code.
    NoCode,
    /// The number of heap pages in the storage is not valid.
    HeapPages(HeapPagesError),
}

/// Finds what the runtime of the genesis block is compiled from.
pub fn runtime_source(storage: &GenesisStorage) -> (r: Result<RuntimeSource, RuntimeSourceError>)
    ensures
        match genesis::stored_value(storage@, code_key()) {
            None => r == Err::<RuntimeSource, RuntimeSourceError>(RuntimeSourceError::NoCode),
            Some(code) => match heap_pages_of(genesis::stored_value(storage@, heap_pages_key())) {
                Err(err) => r == Err::<RuntimeSource, RuntimeSourceError>(
                    RuntimeSourceError::HeapPages(err),
                ),
                Ok(pages) => r matches Ok(source) && source.code@ == code && source.heap_pages
                    == pages,
            },
        },
{
    let code: [u8; 5] = [0x3a, 0x63, 0x6f, 0x64, 0x65];
    let pages: [u8; 10] = [0x3a, 0x68, 0x65, 0x61, 0x70, 0x70, 0x61, 0x67, 0x65, 0x73];
    assert(code@ =~= code_key());
    assert(pages@ =~= heap_pages_key());
    match storage.value(code.as_slice()) {
        None => Err(RuntimeSourceError::NoCode),
        Some(code) => match heap_pages(storage.value(pages.as_slice())) {
            Ok(heap_pages) => Ok(RuntimeSource { code: genesis::copy_bytes(code), heap_pages }),
            Err(err) => Err(RuntimeSourceError::HeapPages(err)),
        },
    }
}

/// The state version of the genesis block, given the one that its runtime specifies, if any.
pub fn genesis_state_version(specified: Option<u8>) -> (r: u8)
    ensures
        r == match specified {
            Some(version) => version,
            None => DEFAULT_STATE_VERSION,
        },
{
    match specified {
        Some(version) => version,
        None => DEFAULT_STATE_VERSION,
    }
}

/// What a new database is filled with, beside the storage of the genesis block.
pub struct GenesisContent {
    /// Body of the genesis block.
    pub body: Vec<Vec<u8>>,
    /// Justification of the genesis block.
    pub justification: Option<Vec<u8>>,
    /// State version of the genesis block.
    pub state_version: u8,
}

/// Determines what a new database is filled with, given the state version that the runtime
/// specifies, if any. The genesis block has an empty body and no justification.
pub fn genesis_content(specified_state_version: Option<u8>) -> (r: GenesisContent)
    ensures
        r.body@ == Seq::<Vec<u8>>::empty(),
        r.justification is None,
        r.state_version == match specified_state_version {
            Some(version) => version,
            None => DEFAULT_STATE_VERSION,
        },
{
    GenesisContent {
        body: Vec::new(),
        justification: None,
        state_version: genesis_state_version(specified_state_version),
    }
}

/// The database of a chain is used as it is only if its first block is the genesis block of the
/// chain, and is filled with the genesis block only if it was empty.
pub proof fn databases_are_not_mixed_up(found: DatabaseFound, genesis_hash: Seq<u8>)
    ensures
        opened_database(found, genesis_hash) == Ok::<OpenedDatabase, DatabaseError>(
            OpenedDatabase::UseExisting,
        ) <==> (found matches DatabaseFound::Existing(Some(hash)) && hash@ == genesis_hash),
        opened_database(found, genesis_hash) == Ok::<OpenedDatabase, DatabaseError>(
            OpenedDatabase::Initialize,
        ) <==> found is Empty,
{
}

/// The hash of the first block of a database once it is open: the one that was found in it, or that
/// of the genesis block, which a new database is filled with.
pub open spec fn first_block(
    found: DatabaseFound,
    opened: OpenedDatabase,
    genesis_hash: Seq<u8>,
) -> Option<Seq<u8>> {
    match opened {
        OpenedDatabase::Initialize => Some(genesis_hash),
        OpenedDatabase::UseExisting => match found {
            DatabaseFound::Existing(Some(hash)) => Some(hash@),
            _ => None,
        },
    }
}

/// Whether a database existed or not, once it is open it belongs to the chain: its first block is
/// the genesis block of the chain. It existed if and only if it was not empty.
pub proof fn opened_database_belongs_to_the_chain(
    found: DatabaseFound,
    genesis_hash: Seq<u8>,
    opened: OpenedDatabase,
)
    requires
        opened_database(found, genesis_hash) == Ok::<OpenedDatabase, DatabaseError>(opened),
    ensures
        first_block(found, opened, genesis_hash) == Some(genesis_hash),
        existed(opened) <==> !(found is Empty),
{
}

/// A database that was opened for a chain, and that has kept its first block, can be opened again
/// for this chain. It then existed, and its first block is still the genesis block.
pub proof fn opened_database_can_be_opened_again(
    found: DatabaseFound,
    genesis_hash: Seq<u8>,
    opened: OpenedDatabase,
    kept: [u8; 32],
)
    requires
        opened_database(found, genesis_hash) == Ok::<OpenedDatabase, DatabaseError>(opened),
        first_block(found, opened, genesis_hash) == Some(kept@),
    ensures
        ({
            let again = DatabaseFound::Existing(Some(kept));
            &&& opened_database(again, genesis_hash) == Ok::<OpenedDatabase, DatabaseError>(
                OpenedDatabase::UseExisting,
            )
            &&& existed(OpenedDatabase::UseExisting)
            &&& first_block(again, OpenedDatabase::UseExisting, genesis_hash) == Some(genesis_hash)
        }),
{
}

/// Something that happens while a database is being opened in the background.
#[derive(Clone, Copy, Debug, PartialEq, Eq, Structural)]
pub enum OpeningEvent {
    /// Starting a thread for it was tried, and worked or not.
    ThreadSpawn {
        /// Whether it worked.
        success: bool,
    },
    /// The timer of the progress bar fired.
    Timer,
    /// The thread is done.
    Opened,
}

/// What to do while a database is being opened.
pub enum OpeningAction {
    /// Open it on the current thread and return the outcome.
    OpenHere,
    /// Wait for the next event.
    Wait,
    /// Print a text, and wait for the next event.
    Print(String),
    /// Return what the thread found.
    Return,
}

/// What to do while a database is being opened, by its characters.
pub enum OpeningActionView {
    /// Open it on the current thread and return the outcome.
    OpenHere,
    /// Wait for the next event.
    Wait,
    /// Print a text, and wait for the next event.
    Print(Seq<char>),
    /// Return what the thread found.
    Return,
}

impl View for OpeningAction {
    type V = OpeningActionView;

    open spec fn view(&self) -> OpeningActionView {
        match self {
            OpeningAction::OpenHere => OpeningActionView::OpenHere,
            OpeningAction::Wait => OpeningActionView::Wait,
            OpeningAction::Print(text) => OpeningActionView::Print(text@),
            OpeningAction::Return => OpeningActionView::Return,
        }
    }
}

/// The icons of the progress bar, one after the other.
pub open spec fn progress_icons() -> Seq<char> {
    seq!['-', '\\', '|', '/']
}

/// The text of the progress bar with one of its icons.
pub open spec fn progress_text(icon: char) -> Seq<char> {
    "    Opening database... "@ + seq![icon, '\r']
}

/// The state of a database that is being opened: whether the user sees the progress, and how many
/// times it was shown.
pub struct Opening {
    show_progress: bool,
    next_icon: usize,
    shown: Ghost<nat>,
}

impl Opening {
    /// The next icon is the one that follows those already shown.
    #[verifier::type_invariant]
    spec fn well_formed(&self) -> bool {
        self.next_icon == self.shown@ % 4
    }

    /// Whether the user sees the progress.
    pub closed spec fn shows_progress(&self) -> bool {
        self.show_progress
    }

    /// How many times the progress was shown.
    pub closed spec fn times_shown(&self) -> nat {
        self.shown@
    }

    /// Nothing was shown yet.
    pub fn new(show_progress: bool) -> (r: Opening)
        ensures
            r.shows_progress() == show_progress,
            r.times_shown() == 0,
    {
        Opening { show_progress, next_icon: 0, shown: Ghost(0) }
    }

    /// Decides what to do when something happens. Each time the progress is shown, the icon is
    /// the one after the last, and the first one again after the last of all.
    pub fn on_event(&mut self, event: OpeningEvent) -> (r: OpeningAction)
        ensures
            final(self).shows_progress() == old(self).shows_progress(),
            final(self).times_shown() == old(self).times_shown() + if event == OpeningEvent::Timer
                && old(self).shows_progress() {
                1int
            } else {
                0int
            },
            r@ == match event {
                OpeningEvent::ThreadSpawn { success } => if success {
                    OpeningActionView::Wait
                } else {
                    OpeningActionView::OpenHere
                },
                OpeningEvent::Timer => if old(self).shows_progress() {
                    OpeningActionView::Print(
                        progress_text(progress_icons()[(old(self).times_shown() % 4) as int]),
                    )
                } else {
                    OpeningActionView::Wait
                },
                OpeningEvent::Opened => OpeningActionView::Return,
            },
    {
        proof {
            use_type_invariant(&*self);
        }
        match event {
            OpeningEvent::ThreadSpawn { success } => {
                if success {
                    OpeningAction::Wait
                } else {
                    OpeningAction::OpenHere
                }
            },
            OpeningEvent::Timer => {
                if self.show_progress {
                    let icon = match self.next_icon {
                        0 => "-\r",
                        1 => "\\\r",
                        2 => "|\r",
                        _ => "/\r",
                    };
                    proof {
                        reveal_strlit("-\r");
                        reveal_strlit("\\\r");
                        reveal_strlit("|\r");
                        reveal_strlit("/\r");
                        assert(icon@ =~= seq![progress_icons()[self.next_icon as int], '\r']);
                    }
                    let text = "    Opening database... ".to_owned().concat(icon);
                    let next_icon: usize = if self.next_icon == 3 {
                        0
                    } else {
                        self.next_icon + 1
                    };
                    *self = Opening {
                        show_progress: self.show_progress,
                        next_icon,
                        shown: Ghost(self.shown@ + 1),
                    };
                    OpeningAction::Print(text)
                } else {
                    OpeningAction::Wait
                }
            },
            OpeningEvent::Opened => OpeningAction::Return,
        }
    }
}

/// A database is refused if and only if it contains data and its first block is missing or is not
/// the genesis block of the chain. The two are told apart.
pub proof fn databases_are_refused_for_a_reason(found: DatabaseFound, genesis_hash: Seq<u8>)
    ensures
        opened_database(found, genesis_hash) == Err::<OpenedDatabase, DatabaseError>(
            DatabaseError::NoGenesisBlock,
        ) <==> (found matches DatabaseFound::Existing(hash) && hash is None),
        opened_database(found, genesis_hash) == Err::<OpenedDatabase, DatabaseError>(
            DatabaseError::ChainMismatch,
        ) <==> (found matches DatabaseFound::Existing(Some(hash)) && hash@ != genesis_hash),
{
}

/// A number of heap pages is read if and only if it is written in eight bytes, the least significant
/// one first, and fits in thirty-two bits. Without one, there are two thousand and forty-eight.
pub proof fn heap_pages_are_read_as_written(pages: u32, bytes: Seq<u8>)
    ensures
        heap_pages_of(None) == Ok::<u32, HeapPagesError>(2048),
        bytes.len() == 8 && crate::scale::le_value(bytes) == pages ==> heap_pages_of(Some(bytes))
            == Ok::<u32, HeapPagesError>(pages),
        heap_pages_of(Some(bytes)) == Ok::<u32, HeapPagesError>(pages) ==> bytes.len() == 8
            && crate::scale::le_value(bytes) == pages,
        bytes.len() != 8 ==> heap_pages_of(Some(bytes)) == Err::<u32, HeapPagesError>(
            HeapPagesError::WrongLength,
        ),
        bytes.len() == 8 && crate::scale::le_value(bytes) > u32::MAX ==> heap_pages_of(Some(bytes))
            == Err::<u32, HeapPagesError>(HeapPagesError::TooLarge),
{
    if bytes.len() == 8 {
        lemma_eight_bytes(bytes);
    }
}

proof fn lemma_eight_bytes(bytes: Seq<u8>)
    requires
        bytes.len() == 8,
    ensures
        crate::scale::le_value(bytes) == bytes[0] + 0x100 * bytes[1] + 0x1_0000 * bytes[2]
            + 0x100_0000 * bytes[3] + 0x1_0000_0000 * bytes[4] + 0x100_0000_0000 * bytes[5]
            + 0x1_0000_0000_0000 * bytes[6] + 0x100_0000_0000_0000 * bytes[7],
{
    reveal_with_fuel(crate::scale::le_value, 9);
    let b1 = bytes.drop_first();
    let b2 = b1.drop_first();
    let b3 = b2.drop_first();
    let b4 = b3.drop_first();
    let b5 = b4.drop_first();
    let b6 = b5.drop_first();
    let b7 = b6.drop_first();
    assert(b1[0] == bytes[1] && b2[0] == bytes[2] && b3[0] == bytes[3] && b4[0] == bytes[4]
        && b5[0] == bytes[5] && b6[0] == bytes[6] && b7[0] == bytes[7]);
    assert(b7.drop_first().len() == 0);
}

/// The keys of the code and of the number of heap pages are the characters of their names.
pub proof fn storage_keys_are_their_names(i: int)
    ensures
        code_key().len() == ":code"@.len(),
        0 <= i < code_key().len() ==> code_key()[i] as int == ":code"@[i] as int,
        heap_pages_key().len() == ":heappages"@.len(),
        0 <= i < heap_pages_key().len() ==> heap_pages_key()[i] as int == ":heappages"@[i] as int,
{
    reveal_strlit(":code");
    reveal_strlit(":heappages");
}

/// The text of the progress bar announces the opening of the database, shows the icon behind it, and
/// ends with a carriage return. There are four icons: a line that turns clockwise.
pub proof fn progress_bar_turns(icon: char)
    ensures
        progress_text(icon).len() == 26,
        progress_text(icon).take(24) == "    Opening database... "@,
        progress_text(icon)[24] == icon,
        progress_text(icon)[25] == '\r',
        progress_icons().len() == 4,
        progress_icons()[0] == '-',
        progress_icons()[1] == '\\',
        progress_icons()[2] == '|',
        progress_icons()[3] == '/',
{
    reveal_strlit("    Opening database... ");
    assert(progress_text(icon).take(24) =~= "    Opening database... "@);
}

/// What to do is told by its mathematical value.
pub proof fn action_is_kept(action: OpeningAction)
    ensures
        action@ is OpenHere <==> action is OpenHere,
        action@ is Wait <==> action is Wait,
        action@ is Return <==> action is Return,
        action@ is Print <==> action is Print,
        action matches OpeningAction::Print(text) ==> action@ == OpeningActionView::Print(text@),
{
}

/// Only a database that is used as it is existed before.
pub proof fn used_database_existed()
    ensures
        existed(OpenedDatabase::UseExisting),
        !existed(OpenedDatabase::Initialize),
{
}

} // verus!
