//! The order in which the node is brought up, runs, and stops.

use crate::cli::Output;
use vstd::prelude::*;

verus! {

/// What the node does, one step after the other.
#[derive(Clone, Copy, Debug, PartialEq, Eq, Structural)]
pub enum Step {
    /// Sets up logging.
    SetUpLogging,
    /// Loads the specification of the chain.
    LoadChain,
    /// Loads the specification of the relay chain.
    LoadRelayChain,
    /// Starts the threads that run tasks.
    StartWorkers,
    /// Finds out where to store everything.
    LocateStorage,
    /// Opens the database of the chain.
    OpenDatabase,
    /// Opens the database of the relay chain.
    OpenRelayDatabase,
    /// Reads the latest finalized block of the chain.
    ReadFinalizedBlock,
    /// Determines the key of the node.
    ChooseKey,
    /// Starts the tracing service.
    StartTracing,
    /// Starts the network service.
    StartNetwork,
    /// Starts the consensus service of the chain.
    StartConsensus,
    /// Starts the consensus service of the relay chain.
    StartRelayConsensus,
    /// Starts the JSON-RPC service.
    StartJsonRpc,
    /// Tells the user that everything was brought up.
    Report,
    /// Starts to catch interrupts.
    CatchInterrupts,
    /// Runs the services until an interrupt is caught.
    Serve,
    /// Ends the informant line, so that the shell does not overwrite it.
    EndInformantLine,
    /// Drops all services.
    Stop,
}

/// What the steps depend on.
#[derive(Clone, Copy, Debug, PartialEq, Eq, Structural)]
pub struct Setting {
    /// Whether the chain has a relay chain.
    pub has_relay: bool,
    /// Whether the user asked for the JSON-RPC service.
    pub has_json_rpc: bool,
    /// Whether the informant is printed, and the progress of the opening of databases.
    pub has_informant: bool,
}

/// What the steps depend on, given the output of the node. Only the informant has a line to end,
/// and goes with showing how the opening of a database proceeds.
pub fn setting(output: Output, has_relay: bool, has_json_rpc: bool) -> (r: Setting)
    ensures
        r.has_relay == has_relay,
        r.has_json_rpc == has_json_rpc,
        r.has_informant == (output == Output::Informant),
{
    let has_informant = match output {
        Output::Informant => true,
        _ => false,
    };
    Setting { has_relay, has_json_rpc, has_informant }
}

/// Number of steps that there are.
pub const NUM_STEPS: usize = 19;

/// All steps, in order.
pub open spec fn step_at(index: nat) -> Step
    recommends
        index < NUM_STEPS,
{
    if index == 0 {
        Step::SetUpLogging
    } else if index == 1 {
        Step::LoadChain
    } else if index == 2 {
        Step::LoadRelayChain
    } else if index == 3 {
        Step::StartWorkers
    } else if index == 4 {
        Step::LocateStorage
    } else if index == 5 {
        Step::OpenDatabase
    } else if index == 6 {
        Step::OpenRelayDatabase
    } else if index == 7 {
        Step::ReadFinalizedBlock
    } else if index == 8 {
        Step::ChooseKey
    } else if index == 9 {
        Step::StartTracing
    } else if index == 10 {
        Step::StartNetwork
    } else if index == 11 {
        Step::StartConsensus
    } else if index == 12 {
        Step::StartRelayConsensus
    } else if index == 13 {
        Step::StartJsonRpc
    } else if index == 14 {
        Step::Report
    } else if index == 15 {
        Step::CatchInterrupts
    } else if index == 16 {
        Step::Serve
    } else if index == 17 {
        Step::EndInformantLine
    } else {
        Step::Stop
    }
}

/// The place of a step among all steps.
pub open spec fn index_of(step: Step) -> nat {
    match step {
        Step::SetUpLogging => 0,
        Step::LoadChain => 1,
        Step::LoadRelayChain => 2,
        Step::StartWorkers => 3,
        Step::LocateStorage => 4,
        Step::OpenDatabase => 5,
        Step::OpenRelayDatabase => 6,
        Step::ReadFinalizedBlock => 7,
        Step::ChooseKey => 8,
        Step::StartTracing => 9,
        Step::StartNetwork => 10,
        Step::StartConsensus => 11,
        Step::StartRelayConsensus => 12,
        Step::StartJsonRpc => 13,
        Step::Report => 14,
        Step::CatchInterrupts => 15,
        Step::Serve => 16,
        Step::EndInformantLine => 17,
        Step::Stop => 18,
    }
}

/// Whether a step is taken in a setting.
pub open spec fn applies(step: Step, setting: Setting) -> bool {
    match step {
        Step::LoadRelayChain | Step::OpenRelayDatabase | Step::StartRelayConsensus => {
            setting.has_relay
        },
        Step::StartJsonRpc => setting.has_json_rpc,
        Step::EndInformantLine => setting.has_informant,
        _ => true,
    }
}

/// The steps that are taken in a setting, from the given place on.
pub open spec fn path_from(index: nat, setting: Setting) -> Seq<Step>
    decreases NUM_STEPS - index,
{
    if index >= NUM_STEPS {
        Seq::empty()
    } else if applies(step_at(index), setting) {
        seq![step_at(index)] + path_from(index + 1, setting)
    } else {
        path_from(index + 1, setting)
    }
}

/// Whether `next` is the step that is taken after `step`: the first one behind it that applies.
pub open spec fn is_next_step(step: Step, setting: Setting, next: Step) -> bool {
    &&& applies(next, setting)
    &&& index_of(step) < index_of(next)
    &&& forall|other: Step|
        applies(other, setting) && index_of(step) < #[trigger] index_of(other) ==> index_of(next)
            <= index_of(other)
}

/// The first step that is taken.
pub fn first_step() -> (r: Step)
    ensures
        r == step_at(0),
{
    Step::SetUpLogging
}

/// The step that is taken after `step`: the next one that applies. Returns `None` after the last
/// one.
pub fn next_step(step: Step, setting: Setting) -> (r: Option<Step>)
    ensures
        match r {
            Some(next) => is_next_step(step, setting, next),
            None => step == Step::Stop,
        },
{
    match step {
        Step::SetUpLogging => Some(Step::LoadChain),
        Step::LoadChain => if setting.has_relay {
            Some(Step::LoadRelayChain)
        } else {
            Some(Step::StartWorkers)
        },
        Step::LoadRelayChain => Some(Step::StartWorkers),
        Step::StartWorkers => Some(Step::LocateStorage),
        Step::LocateStorage => Some(Step::OpenDatabase),
        Step::OpenDatabase => if setting.has_relay {
            Some(Step::OpenRelayDatabase)
        } else {
            Some(Step::ReadFinalizedBlock)
        },
        Step::OpenRelayDatabase => Some(Step::ReadFinalizedBlock),
        Step::ReadFinalizedBlock => Some(Step::ChooseKey),
        Step::ChooseKey => Some(Step::StartTracing),
        Step::StartTracing => Some(Step::StartNetwork),
        Step::StartNetwork => Some(Step::StartConsensus),
        Step::StartConsensus => if setting.has_relay {
            Some(Step::StartRelayConsensus)
        } else if setting.has_json_rpc {
            Some(Step::StartJsonRpc)
        } else {
            Some(Step::Report)
        },
        Step::StartRelayConsensus => if setting.has_json_rpc {
            Some(Step::StartJsonRpc)
        } else {
            Some(Step::Report)
        },
        Step::StartJsonRpc => Some(Step::Report),
        Step::Report => Some(Step::CatchInterrupts),
        Step::CatchInterrupts => Some(Step::Serve),
        Step::Serve => if setting.has_informant {
            Some(Step::EndInformantLine)
        } else {
            Some(Step::Stop)
        },
        Step::EndInformantLine => Some(Step::Stop),
        Step::Stop => None,
    }
}

proof fn lemma_places(step: Step, index: nat)
    requires
        index < NUM_STEPS,
    ensures
        index_of(step) < NUM_STEPS,
        step_at(index_of(step)) == step,
        index_of(step_at(index)) == index,
{
}

proof fn lemma_path_members(index: nat, setting: Setting)
    ensures
        forall|i: int|
            0 <= i < path_from(index, setting).len() ==> {
                &&& applies(#[trigger] path_from(index, setting)[i], setting)
                &&& index_of(path_from(index, setting)[i]) >= index
            },
        forall|i: int, j: int|
            0 <= i < j < path_from(index, setting).len() ==> index_of(
                #[trigger] path_from(index, setting)[i],
            ) < index_of(#[trigger] path_from(index, setting)[j]),
        forall|step: Step|
            applies(step, setting) && index_of(step) >= index ==> path_from(
                index,
                setting,
            ).contains(step),
    decreases NUM_STEPS - index,
{
    if index < NUM_STEPS {
        lemma_path_members(index + 1, setting);
        let path = path_from(index, setting);
        let rest = path_from(index + 1, setting);
        lemma_places(step_at(index), index);
        if applies(step_at(index), setting) {
            assert(path =~= seq![step_at(index)] + rest);
            assert forall|i: int| 0 <= i < path.len() implies applies(#[trigger] path[i], setting)
                && index_of(path[i]) >= index by {
                if i > 0 {
                    assert(path[i] == rest[i - 1]);
                }
            }
            assert forall|i: int, j: int| 0 <= i < j < path.len() implies index_of(
                #[trigger] path[i],
            ) < index_of(#[trigger] path[j]) by {
                assert(path[j] == rest[j - 1]);
                if i > 0 {
                    assert(path[i] == rest[i - 1]);
                }
            }
            assert forall|step: Step|
                applies(step, setting) && index_of(step) >= index implies path.contains(step) by {
                lemma_places(step, index);
                if index_of(step) == index {
                    assert(path[0] == step);
                } else {
                    let i = choose|i: int| 0 <= i < rest.len() && rest[i] == step;
                    assert(rest.contains(step));
                    assert(path[i + 1] == step);
                }
            }
        } else {
            assert forall|step: Step|
                applies(step, setting) && index_of(step) >= index implies path.contains(step) by {
                lemma_places(step, index);
                assert(index_of(step) != index);
                assert(rest.contains(step));
            }
        }
    } else {
        assert forall|step: Step|
            applies(step, setting) && index_of(step) >= index implies path_from(
            index,
            setting,
        ).contains(step) by {
            lemma_places(step, 0);
        }
    }
}

/// Going from one step to the next, starting with the first, takes the steps of the path one after
/// the other, up to the last.
pub proof fn next_step_follows_the_path(setting: Setting, i: int)
    requires
        0 <= i < path_from(0, setting).len() - 1,
    ensures
        path_from(0, setting)[0] == step_at(0),
        is_next_step(path_from(0, setting)[i], setting, path_from(0, setting)[i + 1]),
        path_from(0, setting).last() == Step::Stop,
{
    let path = path_from(0, setting);
    lemma_path_members(0, setting);
    interrupts_are_caught_once_all_is_up(setting, Step::Stop);
    assert(path[0] == step_at(0));
    assert(applies(path[i + 1], setting));
    assert forall|other: Step|
        applies(other, setting) && index_of(path[i]) < #[trigger] index_of(other) implies index_of(
        path[i + 1],
    ) <= index_of(other) by {
        assert(path.contains(other));
        let j = choose|j: int| 0 <= j < path.len() && path[j] == other;
        if j < i {
            assert(index_of(path[j]) < index_of(path[i]));
        } else if j > i + 1 {
            assert(index_of(path[i + 1]) < index_of(path[j]));
        }
    }
}

/// Only one step is taken after another.
pub proof fn next_step_is_unique(step: Step, setting: Setting, a: Step, b: Step)
    requires
        is_next_step(step, setting, a),
        is_next_step(step, setting, b),
    ensures
        a == b,
{
    assert(index_of(a) == index_of(b));
    lemma_places(a, 0);
    lemma_places(b, 0);
}

/// In every setting, the steps that are taken are all those that apply, each of them once and in
/// order.
pub proof fn every_step_is_taken_once(setting: Setting)
    ensures
        forall|step: Step| applies(step, setting) <==> path_from(0, setting).contains(step),
        path_from(0, setting).no_duplicates(),
        forall|i: int, j: int|
            0 <= i < j < path_from(0, setting).len() ==> index_of(
                #[trigger] path_from(0, setting)[i],
            ) < index_of(#[trigger] path_from(0, setting)[j]),
{
    lemma_path_members(0, setting);
}

/// The node brings up everything before it starts to catch interrupts, serves once it does, and
/// stops after it has served, whether there is an informant or not.
pub proof fn interrupts_are_caught_once_all_is_up(setting: Setting, step: Step)
    requires
        applies(step, setting),
    ensures
        step is CatchInterrupts || step is Serve || step is EndInformantLine || step is Stop
            || index_of(step) < index_of(Step::CatchInterrupts),
        applies(Step::CatchInterrupts, setting),
        applies(Step::Serve, setting),
        applies(Step::Stop, setting),
        index_of(Step::CatchInterrupts) < index_of(Step::Serve) < index_of(Step::Stop),
        path_from(0, setting).last() == Step::Stop,
{
    lemma_path_members(0, setting);
    let path = path_from(0, setting);
    assert(applies(Step::Stop, setting));
    assert(path.contains(Step::Stop));
    let i = choose|i: int| 0 <= i < path.len() && path[i] == Step::Stop;
    if i < path.len() - 1 {
        assert(index_of(path[i]) < index_of(path[path.len() - 1]));
        lemma_places(path[path.len() - 1], 0);
    }
}

/// In every setting, the steps for a relay chain are taken if and only if there is one, the
/// JSON-RPC service is started if and only if it was asked for, the informant line is ended if and
/// only if there is one, and every other step is taken.
pub proof fn steps_depend_on_what_they_are_for(setting: Setting, step: Step)
    ensures
        path_from(0, setting).contains(Step::LoadRelayChain) <==> setting.has_relay,
        path_from(0, setting).contains(Step::OpenRelayDatabase) <==> setting.has_relay,
        path_from(0, setting).contains(Step::StartRelayConsensus) <==> setting.has_relay,
        path_from(0, setting).contains(Step::StartJsonRpc) <==> setting.has_json_rpc,
        path_from(0, setting).contains(Step::EndInformantLine) <==> setting.has_informant,
        !(step is LoadRelayChain || step is OpenRelayDatabase || step is StartRelayConsensus
            || step is StartJsonRpc || step is EndInformantLine) ==> path_from(0, setting).contains(
            step,
        ),
{
    every_step_is_taken_once(setting);
    assert(applies(Step::LoadRelayChain, setting) == setting.has_relay);
    assert(applies(Step::OpenRelayDatabase, setting) == setting.has_relay);
    assert(applies(Step::StartRelayConsensus, setting) == setting.has_relay);
    assert(applies(Step::StartJsonRpc, setting) == setting.has_json_rpc);
    assert(applies(Step::EndInformantLine, setting) == setting.has_informant);
    if !(step is LoadRelayChain || step is OpenRelayDatabase || step is StartRelayConsensus
        || step is StartJsonRpc || step is EndInformantLine) {
        assert(applies(step, setting));
    }
}

/// Whether `a` is taken before `b` wherever both are taken.
pub open spec fn precedes(a: Step, b: Step) -> bool {
    forall|setting: Setting, i: int, j: int|
        #![trigger path_from(0, setting)[i], path_from(0, setting)[j]]
        {
            &&& 0 <= i < path_from(0, setting).len()
            &&& 0 <= j < path_from(0, setting).len()
            &&& path_from(0, setting)[i] == a
            &&& path_from(0, setting)[j] == b
        } ==> i < j
}

proof fn lemma_precedes(a: Step, b: Step)
    requires
        index_of(a) < index_of(b),
    ensures
        precedes(a, b),
{
    assert forall|setting: Setting, i: int, j: int|
        #![trigger path_from(0, setting)[i], path_from(0, setting)[j]]
        {
            &&& 0 <= i < path_from(0, setting).len()
            &&& 0 <= j < path_from(0, setting).len()
            &&& path_from(0, setting)[i] == a
            &&& path_from(0, setting)[j] == b
        } implies i < j by {
        every_step_is_taken_once(setting);
        if j < i {
            assert(index_of(path_from(0, setting)[j]) < index_of(path_from(0, setting)[i]));
        }
    }
}

/// The order of the steps: logging is set up first, then the chains are loaded, the threads are
/// started, the databases are opened, the finalized block is read and the key is chosen. Tracing,
/// the network, the consensus of the chain and of the relay chain and JSON-RPC are started in this
/// order. Then the node tells the user, catches interrupts, serves, and stops.
pub proof fn steps_are_taken_in_this_order()
    ensures
        first_of_all(Step::SetUpLogging),
        precedes(Step::SetUpLogging, Step::LoadChain),
        precedes(Step::LoadChain, Step::LoadRelayChain),
        precedes(Step::LoadChain, Step::StartWorkers),
        precedes(Step::LoadRelayChain, Step::StartWorkers),
        precedes(Step::StartWorkers, Step::LocateStorage),
        precedes(Step::LocateStorage, Step::OpenDatabase),
        precedes(Step::OpenDatabase, Step::OpenRelayDatabase),
        precedes(Step::OpenDatabase, Step::ReadFinalizedBlock),
        precedes(Step::OpenRelayDatabase, Step::ReadFinalizedBlock),
        precedes(Step::ReadFinalizedBlock, Step::ChooseKey),
        precedes(Step::ChooseKey, Step::StartTracing),
        precedes(Step::StartTracing, Step::StartNetwork),
        precedes(Step::StartNetwork, Step::StartConsensus),
        precedes(Step::StartConsensus, Step::StartRelayConsensus),
        precedes(Step::StartConsensus, Step::StartJsonRpc),
        precedes(Step::StartConsensus, Step::Report),
        precedes(Step::StartRelayConsensus, Step::StartJsonRpc),
        precedes(Step::StartRelayConsensus, Step::Report),
        precedes(Step::StartJsonRpc, Step::Report),
        precedes(Step::Report, Step::CatchInterrupts),
        precedes(Step::CatchInterrupts, Step::Serve),
        precedes(Step::Serve, Step::EndInformantLine),
        precedes(Step::Serve, Step::Stop),
        precedes(Step::EndInformantLine, Step::Stop),
{
    lemma_precedes(Step::SetUpLogging, Step::LoadChain);
    lemma_precedes(Step::LoadChain, Step::LoadRelayChain);
    lemma_precedes(Step::LoadChain, Step::StartWorkers);
    lemma_precedes(Step::LoadRelayChain, Step::StartWorkers);
    lemma_precedes(Step::StartWorkers, Step::LocateStorage);
    lemma_precedes(Step::LocateStorage, Step::OpenDatabase);
    lemma_precedes(Step::OpenDatabase, Step::OpenRelayDatabase);
    lemma_precedes(Step::OpenDatabase, Step::ReadFinalizedBlock);
    lemma_precedes(Step::OpenRelayDatabase, Step::ReadFinalizedBlock);
    lemma_precedes(Step::ReadFinalizedBlock, Step::ChooseKey);
    lemma_precedes(Step::ChooseKey, Step::StartTracing);
    lemma_precedes(Step::StartTracing, Step::StartNetwork);
    lemma_precedes(Step::StartNetwork, Step::StartConsensus);
    lemma_precedes(Step::StartConsensus, Step::StartRelayConsensus);
    lemma_precedes(Step::StartConsensus, Step::StartJsonRpc);
    lemma_precedes(Step::StartConsensus, Step::Report);
    lemma_precedes(Step::StartRelayConsensus, Step::StartJsonRpc);
    lemma_precedes(Step::StartRelayConsensus, Step::Report);
    lemma_precedes(Step::StartJsonRpc, Step::Report);
    lemma_precedes(Step::Report, Step::CatchInterrupts);
    lemma_precedes(Step::CatchInterrupts, Step::Serve);
    lemma_precedes(Step::Serve, Step::EndInformantLine);
    lemma_precedes(Step::Serve, Step::Stop);
    lemma_precedes(Step::EndInformantLine, Step::Stop);
    assert forall|setting: Setting| (#[trigger] path_from(0, setting)).len() > 0 && path_from(
        0,
        setting,
    )[0] == Step::SetUpLogging by {
        reveal_with_fuel(path_from, 2);
    }
}

/// Whether a step is the first one in every setting.
pub open spec fn first_of_all(step: Step) -> bool {
    forall|setting: Setting|
        (#[trigger] path_from(0, setting)).len() > 0 && path_from(0, setting)[0] == step
}

/// From each step on the way the node goes on to the one behind it, and from no other. So the
/// consensus service of the relay chain follows that of the chain if and only if there is a relay
/// chain, whatever else was asked for.
pub proof fn what_follows_each_step(setting: Setting, next: Step)
    ensures
        is_next_step(Step::SetUpLogging, setting, next) <==> next == Step::LoadChain,
        is_next_step(Step::LoadChain, setting, next) <==> next == if setting.has_relay {
            Step::LoadRelayChain
        } else {
            Step::StartWorkers
        },
        is_next_step(Step::LoadRelayChain, setting, next) <==> next == Step::StartWorkers,
        is_next_step(Step::StartWorkers, setting, next) <==> next == Step::LocateStorage,
        is_next_step(Step::LocateStorage, setting, next) <==> next == Step::OpenDatabase,
        is_next_step(Step::OpenDatabase, setting, next) <==> next == if setting.has_relay {
            Step::OpenRelayDatabase
        } else {
            Step::ReadFinalizedBlock
        },
        is_next_step(Step::OpenRelayDatabase, setting, next) <==> next == Step::ReadFinalizedBlock,
        is_next_step(Step::ReadFinalizedBlock, setting, next) <==> next == Step::ChooseKey,
        is_next_step(Step::ChooseKey, setting, next) <==> next == Step::StartTracing,
        is_next_step(Step::StartTracing, setting, next) <==> next == Step::StartNetwork,
        is_next_step(Step::StartNetwork, setting, next) <==> next == Step::StartConsensus,
        setting.has_relay ==> (is_next_step(Step::StartConsensus, setting, next) <==> next
            == Step::StartRelayConsensus),
        !setting.has_relay ==> (is_next_step(Step::StartConsensus, setting, next) <==> next
            == if setting.has_json_rpc {
            Step::StartJsonRpc
        } else {
            Step::Report
        }),
        is_next_step(Step::StartRelayConsensus, setting, next) <==> next
            == if setting.has_json_rpc {
            Step::StartJsonRpc
        } else {
            Step::Report
        },
        is_next_step(Step::StartJsonRpc, setting, next) <==> next == Step::Report,
        is_next_step(Step::Report, setting, next) <==> next == Step::CatchInterrupts,
        is_next_step(Step::CatchInterrupts, setting, next) <==> next == Step::Serve,
        is_next_step(Step::Serve, setting, next) <==> next == if setting.has_informant {
            Step::EndInformantLine
        } else {
            Step::Stop
        },
        is_next_step(Step::EndInformantLine, setting, next) <==> next == Step::Stop,
        !is_next_step(Step::Stop, setting, next),
{
    assert(index_of(Step::LoadChain) == 1 && index_of(Step::LoadRelayChain) == 2 && index_of(
        Step::StartWorkers,
    ) == 3 && index_of(Step::LocateStorage) == 4 && index_of(Step::OpenDatabase) == 5 && index_of(
        Step::OpenRelayDatabase,
    ) == 6 && index_of(Step::ReadFinalizedBlock) == 7 && index_of(Step::ChooseKey) == 8 && index_of(
        Step::StartTracing,
    ) == 9 && index_of(Step::StartNetwork) == 10 && index_of(Step::StartConsensus) == 11
        && index_of(Step::StartRelayConsensus) == 12 && index_of(Step::StartJsonRpc) == 13
        && index_of(Step::Report) == 14 && index_of(Step::CatchInterrupts) == 15 && index_of(
        Step::Serve,
    ) == 16 && index_of(Step::EndInformantLine) == 17 && index_of(Step::Stop) == 18);
}

} // verus!
