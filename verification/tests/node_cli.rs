use bridge_relays::cli::{
    ensure_dev, green_threshold, load_spec, perf_check_verdict, time_limit_from_baseline, ChainSpec, PerfCheckVerdict,
    SpecSource,
};
use bridge_relays::cli::{
    file_spec_kind, select_chain_spec, Config, FileSpecKind, NativeRuntimes, Network, SpecChoice,
};

#[test]
fn chain_specs_are_found_by_name() {
    assert_eq!(ChainSpec::from("dev"), Some(ChainSpec::PolkadotDevelopment));
    assert_eq!(ChainSpec::from("polkadot-dev"), Some(ChainSpec::PolkadotDevelopment));
    assert_eq!(ChainSpec::from("polkadot-local"), Some(ChainSpec::PolkadotLocalTestnet));
    assert_eq!(ChainSpec::from("polkadot-staging"), Some(ChainSpec::PolkadotStagingTestnet));
    assert_eq!(ChainSpec::from("kusama-dev"), Some(ChainSpec::KusamaDevelopment));
    assert_eq!(ChainSpec::from("kusama-local"), Some(ChainSpec::KusamaLocalTestnet));
    assert_eq!(ChainSpec::from("kusama-staging"), Some(ChainSpec::KusamaStagingTestnet));
    assert_eq!(ChainSpec::from("kusama"), Some(ChainSpec::Kusama));
    assert_eq!(ChainSpec::from("westend"), Some(ChainSpec::Westend));
    assert_eq!(ChainSpec::from(""), Some(ChainSpec::Kusama));
    assert_eq!(ChainSpec::from("spec.json"), None);
    assert_eq!(ChainSpec::default(), ChainSpec::Kusama);
}

#[test]
fn chain_spec_files_are_loaded_when_no_chain_is_named() {
    assert_eq!(load_spec("westend", true), SpecSource::Predefined(ChainSpec::Westend));
    assert_eq!(load_spec("spec.json", true), SpecSource::KusamaFile);
    assert_eq!(load_spec("spec.json", false), SpecSource::PolkadotFile);
}

#[test]
fn dev_only_subcommands_are_refused_on_other_chains() {
    assert_eq!(ensure_dev(true, "polkadot-dev"), Ok(()));
    assert_eq!(
        ensure_dev(false, "kusama"),
        Err("can only use subcommand with --chain [polkadot-dev, kusama-dev, westend-dev, rococo-dev, wococo-dev], got kusama"
            .to_string())
    );
}

#[test]
fn performance_check_limits_work() {
    assert_eq!(green_threshold(1_000), 800);
    assert_eq!(time_limit_from_baseline(1_000), 1_500);
    assert_eq!(time_limit_from_baseline(3), 4);
    assert_eq!(perf_check_verdict(799, 1_000), PerfCheckVerdict::Passed);
    assert_eq!(perf_check_verdict(800, 1_000), PerfCheckVerdict::AlmostExceeded);
    assert_eq!(perf_check_verdict(1_000, 1_000), PerfCheckVerdict::AlmostExceeded);
    assert_eq!(perf_check_verdict(1_001, 1_000), PerfCheckVerdict::TimeOut);
}

const ALL: NativeRuntimes = NativeRuntimes { kusama: true, polkadot: true, rococo: true, westend: true };
const NONE: NativeRuntimes = NativeRuntimes { kusama: false, polkadot: false, rococo: false, westend: false };

#[test]
fn default_chain_follows_executable_name() {
    assert_eq!(select_chain_spec("", "kusama-node", NONE), Ok(SpecChoice::Predefined(Network::Kusama, Config::Live)));
    assert_eq!(select_chain_spec("", "rococo", NONE), Ok(SpecChoice::Predefined(Network::Rococo, Config::Live)));
    assert_eq!(select_chain_spec("", "node", NONE), Ok(SpecChoice::Predefined(Network::Polkadot, Config::Live)));
    // there is no live versi chain: the name is taken for a file
    assert_eq!(select_chain_spec("", "versi", NONE), Ok(SpecChoice::File));
}

#[test]
fn predefined_chains_need_their_runtimes() {
    assert_eq!(select_chain_spec("dev", "polkadot", ALL), Ok(SpecChoice::Predefined(Network::Polkadot, Config::Development)));
    assert_eq!(
        select_chain_spec("wococo-local", "polkadot", ALL),
        Ok(SpecChoice::Predefined(Network::Wococo, Config::LocalTestnet))
    );
    assert_eq!(
        select_chain_spec("kusama-dev", "polkadot", NONE),
        Err("`kusama-dev` only supported with `kusama-native` feature enabled.".to_string())
    );
    assert_eq!(
        select_chain_spec("versi-dev", "polkadot", NONE),
        Err("`versi-dev` only supported with `rococo-native` feature enabled.".to_string())
    );
    // without its runtime, a polkadot development chain name is a file name
    assert_eq!(select_chain_spec("polkadot-dev", "polkadot", NONE), Ok(SpecChoice::File));
    assert_eq!(select_chain_spec("kusama-spec.json", "polkadot", NONE), Ok(SpecChoice::File));
    assert_eq!(select_chain_spec("westend", "polkadot", NONE), Ok(SpecChoice::Predefined(Network::Westend, Config::Live)));
}

#[test]
fn chain_spec_files_are_loaded_by_flags_and_network() {
    assert_eq!(file_spec_kind(false, false, false, None), FileSpecKind::Polkadot);
    assert_eq!(file_spec_kind(true, true, false, None), FileSpecKind::Rococo);
    assert_eq!(file_spec_kind(false, true, false, Some(Network::Westend)), FileSpecKind::Kusama);
    assert_eq!(file_spec_kind(false, false, false, Some(Network::Versi)), FileSpecKind::Rococo);
    assert_eq!(file_spec_kind(false, false, false, Some(Network::Westend)), FileSpecKind::Westend);
}
