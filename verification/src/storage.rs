//! Where the node stores things.

use crate::chain::ChainSpec;
use crate::node_key;
use vstd::prelude::*;

verus! {

/// Name of the directory of the database of a chain, inside of the directory of the chain.
pub const DATABASE_DIRECTORY: &'static str = "database";

/// Name of the directory of the keys of a chain, inside of the directory of the chain.
pub const KEYS_DIRECTORY: &'static str = "keys";

/// Where the node stores everything.
pub enum Location<D> {
    /// In memory, as the user asked for.
    Memory,
    /// In a directory.
    Directory(D),
    /// In memory, because there is no directory for it. The user has to be warned.
    MemoryForLackOfDirectory,
}

impl<D> Location<D> {
    /// The directory where the node stores everything, if it is not in memory.
    pub open spec fn spec_directory(self) -> Option<D> {
        match self {
            Location::Directory(directory) => Some(directory),
            _ => None,
        }
    }

    /// The directory where the node stores everything, if it is not in memory.
    pub fn directory(&self) -> (r: Option<&D>)
        ensures
            r == match self.spec_directory() {
                Some(directory) => Some(&directory),
                None => None,
            },
            match *self {
                Location::Directory(directory) => r == Some(&directory),
                Location::Memory => r is None,
                Location::MemoryForLackOfDirectory => r is None,
            },
    {
        match self {
            Location::Directory(directory) => Some(directory),
            _ => None,
        }
    }
}

/// Determines where the node stores everything. `data_directory` is the directory for the data of
/// the program, which not every user has.
pub fn location<D>(tmp: bool, data_directory: Option<D>) -> (r: Location<D>)
    ensures
        r == if tmp {
            Location::Memory
        } else {
            match data_directory {
                Some(directory) => Location::Directory(directory),
                None => Location::MemoryForLackOfDirectory,
            }
        },
{
    if tmp {
        Location::Memory
    } else {
        match data_directory {
            Some(directory) => Location::Directory(directory),
            None => Location::MemoryForLackOfDirectory,
        }
    }
}

/// Path of the database of a chain, one component after the other, below the directory where the
/// node stores everything.
pub fn database_path(spec: &ChainSpec) -> (r: [String; 2])
    ensures
        r@[0]@ == spec.id@,
        r@[1]@ == DATABASE_DIRECTORY@,
{
    [spec.id.clone(), DATABASE_DIRECTORY.to_owned()]
}

/// The keystore of a chain.
pub struct KeystoreConfig {
    /// Path of the directory of the keys, one component after the other, below the directory
    /// where the node stores everything. `None` if the keys are in memory.
    pub path: Option<[String; 2]>,
    /// Seed of the random number generator of the keystore.
    pub randomness_seed: [u8; 32],
}

/// Puts together how to open the keystore of a chain, given the seed of its random number generator.
/// The keystore of the relay chain shares the directory of the main chain, whose specification
/// `main` is.
pub fn keystore_config_with(main: &ChainSpec, has_directory: bool, seed: [u8; 32]) -> (r:
    KeystoreConfig)
    ensures
        r.path is Some <==> has_directory,
        r.path matches Some(path) ==> path@[0]@ == main.id@ && path@[1]@ == KEYS_DIRECTORY@,
        r.randomness_seed == seed,
{
    KeystoreConfig {
        path: if has_directory {
            Some([main.id.clone(), KEYS_DIRECTORY.to_owned()])
        } else {
            None
        },
        randomness_seed: seed,
    }
}

/// Puts together how to open the keystore of a chain, with a random seed. Nothing is said of the
/// seed.
pub fn keystore_config(main: &ChainSpec, has_directory: bool) -> (r: KeystoreConfig)
    ensures
        r.path is Some <==> has_directory,
        r.path matches Some(path) ==> path@[0]@ == main.id@ && path@[1]@ == KEYS_DIRECTORY@,
{
    keystore_config_with(main, has_directory, node_key::random_bytes())
}

/// The database and the keys of a chain are never in the same place, nor are the databases of two
/// chains that differ.
pub proof fn paths_are_distinct(id: Seq<char>, other: Seq<char>)
    ensures
        seq![id, DATABASE_DIRECTORY@] != seq![other, KEYS_DIRECTORY@],
        id != other ==> seq![id, DATABASE_DIRECTORY@] != seq![other, DATABASE_DIRECTORY@],
{
    reveal_strlit("database");
    reveal_strlit("keys");
    assert(DATABASE_DIRECTORY@.len() != KEYS_DIRECTORY@.len());
    assert(seq![id, DATABASE_DIRECTORY@][1] != seq![other, KEYS_DIRECTORY@][1]);
    if id != other {
        assert(seq![id, DATABASE_DIRECTORY@][0] != seq![other, DATABASE_DIRECTORY@][0]);
    }
}

/// Only what is stored in a directory has one, and it is this directory.
pub proof fn directory_is_the_one_of_the_location<D>(directory: D)
    ensures
        Location::Directory(directory).spec_directory() == Some(directory),
        Location::<D>::Memory.spec_directory() is None,
        Location::<D>::MemoryForLackOfDirectory.spec_directory() is None,
{
}

} // verus!
