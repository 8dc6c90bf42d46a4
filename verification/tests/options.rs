//! Output, logging, chains, storage and threads.

use full_node::chain::{check_distinct, relay_chain_file, ChainSpec, CliChain, RelayChainError};
use full_node::cli::{resolve_output, ColorChoice, Output};
use full_node::logging::{
    level_name, log_line, log_record, logger_setup, Directive, Format, Level,
};
use full_node::storage::{
    database_path, keystore_config, keystore_config_with, location, Location,
};
use full_node::text::{decimal_len, push_decimal};
use full_node::workers::{worker_count, worker_name};

fn spec(id: &str, relay_chain: Option<(String, u32)>) -> ChainSpec {
    ChainSpec {
        id: id.to_owned(),
        name: id.to_uppercase(),
        fork_id: None,
        block_number_bytes: 4,
        relay_chain,
        boot_nodes: vec![],
    }
}

/// The filters of a setup, where levels stand by their name.
fn directives(output: Output, filters: &[&str]) -> Vec<String> {
    let filters = filters.iter().map(|filter| filter.to_string()).collect();
    let setup = logger_setup(output, &filters, ColorChoice::Never).unwrap();
    setup
        .directives
        .into_iter()
        .map(|directive| match directive {
            Directive::Filter(filter) => filter,
            Directive::Level(level) => format!("<{}>", level_name(level)),
        })
        .collect()
}

#[test]
fn auto_output_depends_on_the_terminal_and_the_filters() {
    assert_eq!(resolve_output(Output::Auto, true, false), Output::Informant);
    assert_eq!(resolve_output(Output::Auto, true, true), Output::Logs);
    assert_eq!(resolve_output(Output::Auto, false, false), Output::Logs);
    assert_eq!(resolve_output(Output::Auto, false, true), Output::Logs);
}

#[test]
fn chosen_output_is_kept() {
    for output in [
        Output::Silent,
        Output::Informant,
        Output::Logs,
        Output::LogsJson,
    ] {
        assert_eq!(resolve_output(output, true, false), output);
        assert_eq!(resolve_output(output, false, true), output);
    }
}

#[test]
fn silent_node_logs_nothing() {
    assert!(logger_setup(Output::Silent, &vec![], ColorChoice::Always).is_none());
}

#[test]
fn informant_leaves_filters_aside() {
    assert_eq!(
        directives(Output::Informant, &["network=trace"]),
        vec!["cranelift=error", "<info>"]
    );
}

#[test]
fn filters_come_behind_the_level() {
    assert_eq!(
        directives(Output::Logs, &["network=trace", "sync=warn"]),
        vec!["cranelift=error", "<debug>", "network=trace", "sync=warn"]
    );
    assert_eq!(
        directives(Output::LogsJson, &[]),
        vec!["cranelift=error", "<debug>"]
    );
}

#[test]
fn json_is_never_coloured() {
    let format = |output| {
        logger_setup(output, &vec![], ColorChoice::Always)
            .unwrap()
            .format
    };
    assert_eq!(format(Output::LogsJson), Format::Json);
    assert_eq!(format(Output::Logs), Format::Text(ColorChoice::Always));
    assert_eq!(format(Output::Informant), Format::Text(ColorChoice::Always));
}

#[test]
fn levels_have_distinct_names() {
    let names: Vec<_> = [
        Level::Trace,
        Level::Debug,
        Level::Info,
        Level::Warn,
        Level::Error,
    ]
    .into_iter()
    .map(level_name)
    .collect();
    assert_eq!(names, vec!["trace", "debug", "info", "warn", "error"]);
}

#[test]
fn records_hold_what_was_logged() {
    let record = log_record(Some(17), "sync".to_owned(), Level::Warn, "slow".to_owned());
    assert_eq!(record.timestamp, 17);
    assert_eq!(record.target, "sync");
    assert_eq!(record.level, "warn");
    assert_eq!(record.message, "slow");
    let record = log_record(None, String::new(), Level::Info, String::new());
    assert_eq!(record.timestamp, 0);
}

#[test]
fn records_end_with_a_line_feed() {
    assert_eq!(log_line(b"{}".to_vec()), b"{}\n".to_vec());
}

#[test]
fn relay_chain_is_next_to_the_chain() {
    let custom = CliChain::Custom("/specs/statemint.json".to_owned());
    let parachain = spec("statemint", Some(("polkadot".to_owned(), 1000)));
    assert_eq!(
        relay_chain_file(&custom, &parachain),
        Ok(Some("polkadot.json".to_owned()))
    );
    assert_eq!(relay_chain_file(&custom, &spec("polkadot", None)), Ok(None));
}

#[test]
fn built_in_chains_have_no_relay_chain() {
    let parachain = spec("statemint", Some(("polkadot".to_owned(), 1000)));
    for chain in [
        CliChain::<String>::Polkadot,
        CliChain::Kusama,
        CliChain::Westend,
    ] {
        assert_eq!(
            relay_chain_file(&chain, &parachain),
            Err(RelayChainError::Unexpected)
        );
        assert_eq!(relay_chain_file(&chain, &spec("polkadot", None)), Ok(None));
    }
}

#[test]
fn relay_chain_is_another_chain() {
    assert_eq!(check_distinct(&spec("a", None), &spec("b", None)), Ok(()));
    assert_eq!(
        check_distinct(&spec("a", None), &spec("a", None)),
        Err(RelayChainError::SameChain)
    );
}

#[test]
fn everything_is_in_memory_without_a_directory() {
    assert!(matches!(location(true, Some("dir")), Location::Memory));
    assert!(matches!(location::<&str>(true, None), Location::Memory));
    assert!(matches!(
        location::<&str>(false, None),
        Location::MemoryForLackOfDirectory
    ));
    assert_eq!(location(false, Some("dir")).directory(), Some(&"dir"));
    assert_eq!(location(true, Some("dir")).directory(), None);
}

#[test]
fn database_and_keys_have_their_own_directories() {
    let chain = spec("kusama", None);
    assert_eq!(database_path(&chain), ["kusama", "database"]);
    let keystore = keystore_config(&chain, true);
    assert_eq!(
        keystore.path,
        Some(["kusama".to_owned(), "keys".to_owned()])
    );
    assert_ne!(
        keystore.randomness_seed,
        keystore_config(&chain, true).randomness_seed
    );
    assert_eq!(keystore_config(&chain, false).path, None);
    assert_ne!(database_path(&chain), database_path(&spec("polkadot", None)));
}

#[test]
fn one_thread_is_already_there() {
    assert_eq!(worker_count(Some(1)), 0);
    assert_eq!(worker_count(Some(8)), 7);
    assert_eq!(worker_count(None), 3);
}

#[test]
fn threads_are_numbered() {
    assert_eq!(worker_name(0), "tasks-pool-0");
    assert_eq!(worker_name(10), "tasks-pool-10");
    assert_eq!(worker_name(123), "tasks-pool-123");
}

#[test]
fn numbers_are_written_in_base_ten() {
    for (number, text) in [
        (0, "0"),
        (9, "9"),
        (10, "10"),
        (1050, "1050"),
        (u64::MAX, "18446744073709551615"),
    ] {
        let mut out = "n=".to_owned();
        push_decimal(&mut out, number);
        assert_eq!(out, format!("n={text}"));
        assert_eq!(decimal_len(number), text.len() as u64);
    }
}

#[test]
fn keystore_takes_the_seed_that_it_is_given() {
    let chain = spec("kusama", None);
    let keystore = keystore_config_with(&chain, true, [7; 32]);
    assert_eq!(keystore.randomness_seed, [7; 32]);
    assert_eq!(
        keystore.path,
        Some(["kusama".to_owned(), "keys".to_owned()])
    );
    let keystore = keystore_config_with(&chain, false, [8; 32]);
    assert_eq!(keystore.randomness_seed, [8; 32]);
    assert_eq!(keystore.path, None);
}
