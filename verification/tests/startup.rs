//! The order of the steps of the node.

use full_node::cli::Output;
use full_node::startup::{first_step, next_step, setting, Setting, Step};

fn path(has_relay: bool, has_json_rpc: bool, has_informant: bool) -> Vec<Step> {
    let setting = Setting {
        has_relay,
        has_json_rpc,
        has_informant,
    };
    let mut steps = vec![first_step()];
    while let Some(step) = next_step(steps[steps.len() - 1], setting) {
        steps.push(step);
    }
    steps
}

#[test]
fn all_steps_are_taken_in_order() {
    assert_eq!(
        path(true, true, true),
        vec![
            Step::SetUpLogging,
            Step::LoadChain,
            Step::LoadRelayChain,
            Step::StartWorkers,
            Step::LocateStorage,
            Step::OpenDatabase,
            Step::OpenRelayDatabase,
            Step::ReadFinalizedBlock,
            Step::ChooseKey,
            Step::StartTracing,
            Step::StartNetwork,
            Step::StartConsensus,
            Step::StartRelayConsensus,
            Step::StartJsonRpc,
            Step::Report,
            Step::CatchInterrupts,
            Step::Serve,
            Step::EndInformantLine,
            Step::Stop,
        ]
    );
}

#[test]
fn steps_that_do_not_apply_are_left_out() {
    assert_eq!(
        path(false, false, false),
        vec![
            Step::SetUpLogging,
            Step::LoadChain,
            Step::StartWorkers,
            Step::LocateStorage,
            Step::OpenDatabase,
            Step::ReadFinalizedBlock,
            Step::ChooseKey,
            Step::StartTracing,
            Step::StartNetwork,
            Step::StartConsensus,
            Step::Report,
            Step::CatchInterrupts,
            Step::Serve,
            Step::Stop,
        ]
    );
    assert!(!path(true, false, true).contains(&Step::StartJsonRpc));
    assert!(path(false, true, false).contains(&Step::StartJsonRpc));
}

#[test]
fn nothing_is_brought_up_once_interrupts_are_caught() {
    for has_relay in [false, true] {
        for has_json_rpc in [false, true] {
            for has_informant in [false, true] {
                let steps = path(has_relay, has_json_rpc, has_informant);
                let caught = steps
                    .iter()
                    .position(|step| *step == Step::CatchInterrupts)
                    .unwrap();
                assert_eq!(steps[caught - 1], Step::Report);
                assert_eq!(steps[caught + 1], Step::Serve);
                assert_eq!(steps[steps.len() - 1], Step::Stop);
                assert_eq!(steps.len() - caught, if has_informant { 4 } else { 3 });
            }
        }
    }
}

#[test]
fn only_the_informant_has_a_line_to_end() {
    for output in [Output::Silent, Output::Logs, Output::LogsJson] {
        assert!(!setting(output, true, true).has_informant);
    }
    assert_eq!(
        setting(Output::Informant, false, true),
        Setting {
            has_relay: false,
            has_json_rpc: true,
            has_informant: true,
        }
    );
    assert_eq!(
        setting(Output::Logs, true, false),
        Setting {
            has_relay: true,
            has_json_rpc: false,
            has_informant: false,
        }
    );
}
