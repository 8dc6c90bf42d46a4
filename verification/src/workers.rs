//! The threads that run the tasks of the node.

use crate::text;
use vstd::prelude::*;
use vstd::string::*;

verus! {

/// Number of additional threads where the parallelism of the machine is not known.
pub const DEFAULT_WORKERS: usize = 3;

/// What the name of a thread starts with.
pub const WORKER_NAME_PREFIX: &'static str = "tasks-pool-";

/// Number of threads to start, given how many the machine can run at once. One less is started,
/// as tasks run on the current thread too.
pub fn worker_count(available_parallelism: Option<usize>) -> (r: usize)
    requires
        available_parallelism matches Some(n) ==> n >= 1,
    ensures
        r == match available_parallelism {
            Some(n) => n - 1,
            None => DEFAULT_WORKERS as int,
        },
        available_parallelism is None ==> r == 3,
{
    match available_parallelism {
        Some(n) => n - 1,
        None => DEFAULT_WORKERS,
    }
}

/// The name of a thread, given its index.
pub open spec fn worker_name_of(index: nat) -> Seq<char> {
    WORKER_NAME_PREFIX@ + text::decimal(index)
}

/// The name of a thread, given its index.
pub fn worker_name(index: usize) -> (r: String)
    ensures
        r@ == worker_name_of(index as nat),
{
    let mut name = WORKER_NAME_PREFIX.to_owned();
    text::push_decimal(&mut name, index as u64);
    name
}

/// No two threads have the same name.
pub proof fn worker_names_are_distinct(a: nat, b: nat)
    requires
        worker_name_of(a) == worker_name_of(b),
    ensures
        a == b,
{
    let n = WORKER_NAME_PREFIX@.len() as int;
    assert(worker_name_of(a).skip(n) =~= text::decimal(a));
    assert(worker_name_of(b).skip(n) =~= text::decimal(b));
    text::lemma_decimal_injective(a, b);
}

/// The name of a thread is `tasks-pool-` and behind it the index of the thread in decimal digits.
pub proof fn worker_name_ends_with_the_index(index: nat)
    ensures
        worker_name_of(index).take(11) == seq![
            't',
            'a',
            's',
            'k',
            's',
            '-',
            'p',
            'o',
            'o',
            'l',
            '-',
        ],
        worker_name_of(index).len() > 11,
        text::number_of(worker_name_of(index).skip(11)) == index,
        forall|i: int|
            11 <= i < worker_name_of(index).len() ==> '0' <= #[trigger] worker_name_of(index)[i]
                <= '9',
        index > 0 ==> worker_name_of(index)[11] != '0',
{
    reveal_strlit("tasks-pool-");
    let name = worker_name_of(index);
    text::decimal_stands_for_the_number(index);
    text::lemma_decimal_len(index);
    assert(name.skip(11) =~= text::decimal(index));
    assert forall|i: int| 11 <= i < name.len() implies '0' <= #[trigger] name[i] <= '9' by {
        assert(name[i] == text::decimal(index)[i - 11]);
    }
    assert(name.take(11) =~= seq!['t', 'a', 's', 'k', 's', '-', 'p', 'o', 'o', 'l', '-']);
}

} // verus!
