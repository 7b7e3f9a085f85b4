//! Command line helpers of the node: predefined chains, which chain
//! specification to load, and the limits of the host performance check.

use vstd::prelude::*;
use vstd::string::{StrSliceExecFns, StringExecFns};

verus! {

/// The chain specification (this should eventually be replaced by a more general JSON-based chain
/// specification).
#[derive(Clone, Copy, Debug, PartialEq, Eq, Structural)]
pub enum ChainSpec {
    /// Whatever the current polkadot runtime is, with just Alice as an auth.
    PolkadotDevelopment,
    /// Whatever the current pokadot runtime is, with simple Alice/Bob auths.
    PolkadotLocalTestnet,
    /// The Kusama network.
    Kusama,
    /// Whatever the current kusama runtime is, with just Alice as an auth.
    KusamaDevelopment,
    /// The Westend network,
    Westend,
    /// Whatever the current polkadot runtime is with the "global testnet" defaults.
    PolkadotStagingTestnet,
    /// Whatever the current kusama runtime is with the "global testnet" defaults.
    KusamaStagingTestnet,
    /// Whatever the current kusama runtime is, with simple Alice/Bob auths.
    KusamaLocalTestnet,
}

impl Default for ChainSpec {
    /// The Kusama network is the default chain.
    fn default() -> (r: Self)
        ensures
            r == ChainSpec::Kusama,
    {
        ChainSpec::Kusama
    }
}

/// Whether the text is the given one.
fn text_is(text: &str, expected: &str) -> (r: bool)
    ensures
        r == (text@ == expected@),
{
    text.to_owned() == expected.to_owned()
}

/// The predefined chain that the given name stands for, if any.
pub open spec fn chain_named(name: Seq<char>) -> Option<ChainSpec> {
    if name == "polkadot-dev"@ || name == "dev"@ {
        Some(ChainSpec::PolkadotDevelopment)
    } else if name == "polkadot-local"@ {
        Some(ChainSpec::PolkadotLocalTestnet)
    } else if name == "polkadot-staging"@ {
        Some(ChainSpec::PolkadotStagingTestnet)
    } else if name == "kusama-dev"@ {
        Some(ChainSpec::KusamaDevelopment)
    } else if name == "kusama-local"@ {
        Some(ChainSpec::KusamaLocalTestnet)
    } else if name == "kusama-staging"@ {
        Some(ChainSpec::KusamaStagingTestnet)
    } else if name == "kusama"@ {
        Some(ChainSpec::Kusama)
    } else if name == "westend"@ {
        Some(ChainSpec::Westend)
    } else if name == ""@ {
        Some(ChainSpec::Kusama)
    } else {
        None
    }
}

impl ChainSpec {
    /// The predefined chain with the given name (see `chain_named`; the empty
    /// name stands for the default chain).
    pub fn from(s: &str) -> (r: Option<Self>)
        ensures
            r == chain_named(s@),
    {
        if text_is(s, "polkadot-dev") || text_is(s, "dev") {
            Some(ChainSpec::PolkadotDevelopment)
        } else if text_is(s, "polkadot-local") {
            Some(ChainSpec::PolkadotLocalTestnet)
        } else if text_is(s, "polkadot-staging") {
            Some(ChainSpec::PolkadotStagingTestnet)
        } else if text_is(s, "kusama-dev") {
            Some(ChainSpec::KusamaDevelopment)
        } else if text_is(s, "kusama-local") {
            Some(ChainSpec::KusamaLocalTestnet)
        } else if text_is(s, "kusama-staging") {
            Some(ChainSpec::KusamaStagingTestnet)
        } else if text_is(s, "kusama") {
            Some(ChainSpec::Kusama)
        } else if text_is(s, "westend") {
            Some(ChainSpec::Westend)
        } else if text_is(s, "") {
            Some(ChainSpec::default())
        } else {
            None
        }
    }
}

/// Where the chain specification comes from.
#[derive(Clone, Copy, Debug, PartialEq, Eq, Structural)]
pub enum SpecSource {
    /// One of the predefined chains.
    Predefined(ChainSpec),
    /// A JSON file of a Kusama chain specification.
    KusamaFile,
    /// A JSON file of a Polkadot chain specification.
    PolkadotFile,
}

/// Which chain specification to load for the given `id`: a predefined chain if
/// the id names one, and otherwise the JSON file at the path `id`, which
/// `force_kusama` treats as a Kusama chain specification.
pub fn load_spec(id: &str, force_kusama: bool) -> (r: SpecSource)
    ensures
        r == match chain_named(id@) {
            Some(spec) => SpecSource::Predefined(spec),
            None => if force_kusama {
                SpecSource::KusamaFile
            } else {
                SpecSource::PolkadotFile
            },
        },
{
    match ChainSpec::from(id) {
        Some(spec) => SpecSource::Predefined(spec),
        None => if force_kusama {
            SpecSource::KusamaFile
        } else {
            SpecSource::PolkadotFile
        },
    }
}

/// Some subcommands can only be used with a development chain: the error names
/// the chain that was given instead.
pub fn ensure_dev(is_dev: bool, id: &str) -> (r: Result<(), String>)
    ensures
        is_dev ==> r is Ok,
        !is_dev ==> (r matches Err(e) && e@ == "can only use subcommand with --chain [polkadot-dev, kusama-dev, westend-dev, rococo-dev, wococo-dev], got "@
            + id@),
{
    if is_dev {
        Ok(())
    } else {
        let mut text =
            "can only use subcommand with --chain [polkadot-dev, kusama-dev, westend-dev, rococo-dev, wococo-dev], got "
                .to_owned();
        text.append(id);
        Err(text)
    }
}

/// Largest duration, in nanoseconds.
pub open spec fn max_duration() -> int {
    (u64::MAX + 1) * 1_000_000_000 - 1
}

/// Returns a no-warning threshold for the given time limit (in nanoseconds):
/// four fifths of it.
pub fn green_threshold(duration: u128) -> (r: u128)
    requires
        duration * 4 <= max_duration(),
    ensures
        r == duration * 4 / 5,
{
    duration * 4 / 5
}

/// Returns an extended time limit (in nanoseconds) to be used for the actual
/// check: three halves of the baseline.
pub fn time_limit_from_baseline(duration: u128) -> (r: u128)
    requires
        duration * 3 <= max_duration(),
    ensures
        r == duration * 3 / 2,
{
    duration * 3 / 2
}

/// Outcome of a performance check.
#[derive(Clone, Copy, Debug, PartialEq, Eq, Structural)]
pub enum PerfCheckVerdict {
    /// The check passed well within its time limit.
    Passed,
    /// The check passed, but its time limit is almost exceeded.
    AlmostExceeded,
    /// The check took longer than its time limit.
    TimeOut,
}

/// Outcome of a performance check that took `elapsed` nanoseconds against its
/// time limit: passed below the green threshold, almost exceeded up to the
/// limit, timed out above it.
pub fn perf_check_verdict(elapsed: u128, time_limit: u128) -> (r: PerfCheckVerdict)
    requires
        time_limit * 4 <= max_duration(),
    ensures
        r == if elapsed < time_limit * 4 / 5 {
            PerfCheckVerdict::Passed
        } else if elapsed <= time_limit {
            PerfCheckVerdict::AlmostExceeded
        } else {
            PerfCheckVerdict::TimeOut
        },
{
    if elapsed < green_threshold(time_limit) {
        PerfCheckVerdict::Passed
    } else if elapsed <= time_limit {
        PerfCheckVerdict::AlmostExceeded
    } else {
        PerfCheckVerdict::TimeOut
    }
}

/// `text` begins with `prefix`.
pub open spec fn starts_with(text: Seq<char>, prefix: Seq<char>) -> bool {
    text.len() >= prefix.len() && text.subrange(0, prefix.len() as int) == prefix
}

/// `text` ends with `suffix`.
pub open spec fn ends_with(text: Seq<char>, suffix: Seq<char>) -> bool {
    text.len() >= suffix.len() && text.subrange(text.len() - suffix.len(), text.len() as int) == suffix
}

/// Whether the characters of `text` from `start` on begin with `part`.
fn has_at(text: &str, start: usize, part: &str) -> (r: bool)
    requires
        start as nat + part@.len() <= text@.len(),
        text@.len() <= usize::MAX,
    ensures
        r == (text@.subrange(start as int, start + part@.len()) == part@),
{
    let n = part.unicode_len();
    let mut i: usize = 0;
    while i < n
        invariant
            n == part@.len(),
            i <= n,
            start as nat + part@.len() <= text@.len(),
            text@.len() <= usize::MAX,
            forall|j: int| 0 <= j < i ==> text@[start + j] == part@[j],
        decreases n - i,
    {
        if text.get_char(start + i) != part.get_char(i) {
            assert(text@.subrange(start as int, start + part@.len())[i as int] != part@[i as int]);
            return false;
        }
        i = i + 1;
    }
    assert(text@.subrange(start as int, start + part@.len()) =~= part@);
    true
}

/// Whether `text` begins with `prefix`.
fn text_starts_with(text: &str, prefix: &str) -> (r: bool)
    ensures
        r == starts_with(text@, prefix@),
{
    if text.unicode_len() < prefix.unicode_len() {
        return false;
    }
    has_at(text, 0, prefix)
}

/// Whether `text` ends with `suffix`.
fn text_ends_with(text: &str, suffix: &str) -> (r: bool)
    ensures
        r == ends_with(text@, suffix@),
{
    let len = text.unicode_len();
    let suffix_len = suffix.unicode_len();
    if len < suffix_len {
        return false;
    }
    has_at(text, len - suffix_len, suffix)
}

/// Runtimes that the node is built with.
#[derive(Clone, Copy, Debug, PartialEq, Eq, Structural)]
pub struct NativeRuntimes {
    /// The Kusama runtime.
    pub kusama: bool,
    /// The Polkadot runtime.
    pub polkadot: bool,
    /// The Rococo runtime (also for Wococo and Versi).
    pub rococo: bool,
    /// The Westend runtime.
    pub westend: bool,
}

/// Networks of the predefined chain specifications.
#[derive(Clone, Copy, Debug, PartialEq, Eq, Structural)]
pub enum Network {
    /// Kusama.
    Kusama,
    /// Polkadot.
    Polkadot,
    /// Rococo.
    Rococo,
    /// Westend.
    Westend,
    /// Wococo.
    Wococo,
    /// Versi.
    Versi,
}

/// Configurations of the predefined chain specifications.
#[derive(Clone, Copy, Debug, PartialEq, Eq, Structural)]
pub enum Config {
    /// The live network.
    Live,
    /// A development chain.
    Development,
    /// A local testnet.
    LocalTestnet,
    /// A staging testnet.
    StagingTestnet,
}

/// The chain specification that the node loads.
#[derive(Clone, Copy, Debug, PartialEq, Eq, Structural)]
pub enum SpecChoice {
    /// A predefined chain specification.
    Predefined(Network, Config),
    /// The JSON file at the path that the id gives.
    File,
}

/// The chain that the node runs when no chain is given: the first of
/// polkadot, kusama, westend, rococo and versi that the executable's name
/// begins with, or polkadot.
pub open spec fn default_chain(exec_name: Seq<char>) -> Seq<char> {
    if starts_with(exec_name, "polkadot"@) {
        "polkadot"@
    } else if starts_with(exec_name, "kusama"@) {
        "kusama"@
    } else if starts_with(exec_name, "westend"@) {
        "westend"@
    } else if starts_with(exec_name, "rococo"@) {
        "rococo"@
    } else if starts_with(exec_name, "versi"@) {
        "versi"@
    } else {
        "polkadot"@
    }
}

/// The error for a chain whose runtime the node is not built with.
pub open spec fn missing_runtime_error(name: Seq<char>, feature: Seq<char>) -> Seq<char> {
    "`"@ + name + "` only supported with `"@ + feature + "` feature enabled."@
}

/// Which chain specification the chain name `id` (the executable's default
/// chain where it is empty) selects, given the runtimes that the node is built
/// with: a predefined live chain; a predefined development, local or staging
/// chain where the node has its runtime; an error for the other names of such
/// chains (except JSON file names of Kusama, Rococo and Westend) where it does
/// not; and otherwise the JSON file at that path.
pub open spec fn chain_spec_choice(id: Seq<char>, exec_name: Seq<char>, native: NativeRuntimes) -> Result<
    SpecChoice,
    Seq<char>,
> {
    let id = if id.len() == 0 {
        default_chain(exec_name)
    } else {
        id
    };
    if id == "kusama"@ {
        Ok(SpecChoice::Predefined(Network::Kusama, Config::Live))
    } else if native.kusama && id == "kusama-dev"@ {
        Ok(SpecChoice::Predefined(Network::Kusama, Config::Development))
    } else if native.kusama && id == "kusama-local"@ {
        Ok(SpecChoice::Predefined(Network::Kusama, Config::LocalTestnet))
    } else if native.kusama && id == "kusama-staging"@ {
        Ok(SpecChoice::Predefined(Network::Kusama, Config::StagingTestnet))
    } else if !native.kusama && starts_with(id, "kusama-"@) && !ends_with(id, ".json"@) {
        Err(missing_runtime_error(id, "kusama-native"@))
    } else if id == "polkadot"@ {
        Ok(SpecChoice::Predefined(Network::Polkadot, Config::Live))
    } else if native.polkadot && (id == "polkadot-dev"@ || id == "dev"@) {
        Ok(SpecChoice::Predefined(Network::Polkadot, Config::Development))
    } else if native.polkadot && id == "polkadot-local"@ {
        Ok(SpecChoice::Predefined(Network::Polkadot, Config::LocalTestnet))
    } else if native.polkadot && id == "polkadot-staging"@ {
        Ok(SpecChoice::Predefined(Network::Polkadot, Config::StagingTestnet))
    } else if id == "rococo"@ {
        Ok(SpecChoice::Predefined(Network::Rococo, Config::Live))
    } else if native.rococo && id == "rococo-dev"@ {
        Ok(SpecChoice::Predefined(Network::Rococo, Config::Development))
    } else if native.rococo && id == "rococo-local"@ {
        Ok(SpecChoice::Predefined(Network::Rococo, Config::LocalTestnet))
    } else if native.rococo && id == "rococo-staging"@ {
        Ok(SpecChoice::Predefined(Network::Rococo, Config::StagingTestnet))
    } else if !native.rococo && starts_with(id, "rococo-"@) && !ends_with(id, ".json"@) {
        Err(missing_runtime_error(id, "rococo-native"@))
    } else if id == "westend"@ {
        Ok(SpecChoice::Predefined(Network::Westend, Config::Live))
    } else if native.westend && id == "westend-dev"@ {
        Ok(SpecChoice::Predefined(Network::Westend, Config::Development))
    } else if native.westend && id == "westend-local"@ {
        Ok(SpecChoice::Predefined(Network::Westend, Config::LocalTestnet))
    } else if native.westend && id == "westend-staging"@ {
        Ok(SpecChoice::Predefined(Network::Westend, Config::StagingTestnet))
    } else if !native.westend && starts_with(id, "westend-"@) && !ends_with(id, ".json"@) {
        Err(missing_runtime_error(id, "westend-native"@))
    } else if id == "wococo"@ {
        Ok(SpecChoice::Predefined(Network::Wococo, Config::Live))
    } else if native.rococo && id == "wococo-dev"@ {
        Ok(SpecChoice::Predefined(Network::Wococo, Config::Development))
    } else if native.rococo && id == "wococo-local"@ {
        Ok(SpecChoice::Predefined(Network::Wococo, Config::LocalTestnet))
    } else if !native.rococo && starts_with(id, "wococo-"@) {
        Err(missing_runtime_error(id, "rococo-native"@))
    } else if native.rococo && id == "versi-dev"@ {
        Ok(SpecChoice::Predefined(Network::Versi, Config::Development))
    } else if native.rococo && id == "versi-local"@ {
        Ok(SpecChoice::Predefined(Network::Versi, Config::LocalTestnet))
    } else if native.rococo && id == "versi-staging"@ {
        Ok(SpecChoice::Predefined(Network::Versi, Config::StagingTestnet))
    } else if !native.rococo && starts_with(id, "versi-"@) {
        Err(missing_runtime_error(id, "rococo-native"@))
    } else {
        Ok(SpecChoice::File)
    }
}

/// The text of `missing_runtime_error`.
fn missing_runtime_text(name: &str, feature: &str) -> (r: String)
    ensures
        r@ == missing_runtime_error(name@, feature@),
{
    let mut text = "`".to_owned();
    text.append(name);
    text.append("` only supported with `");
    text.append(feature);
    text.append("` feature enabled.");
    text
}

/// The chain that the node runs when no chain is given (see `default_chain`).
fn default_chain_of(exec_name: &str) -> (r: &'static str)
    ensures
        r@ == default_chain(exec_name@),
{
    if text_starts_with(exec_name, "polkadot") {
        "polkadot"
    } else if text_starts_with(exec_name, "kusama") {
        "kusama"
    } else if text_starts_with(exec_name, "westend") {
        "westend"
    } else if text_starts_with(exec_name, "rococo") {
        "rococo"
    } else if text_starts_with(exec_name, "versi") {
        "versi"
    } else {
        "polkadot"
    }
}

/// Selects the chain specification that the node loads for the chain name `id`
/// (see `chain_spec_choice`), given the name of the node's executable and the
/// runtimes that it is built with.
pub fn select_chain_spec(id: &str, exec_name: &str, native: NativeRuntimes) -> (r: Result<SpecChoice, String>)
    ensures
        match (r, chain_spec_choice(id@, exec_name@, native)) {
            (Ok(choice), Ok(expected)) => choice == expected,
            (Err(e), Err(expected)) => e@ == expected,
            _ => false,
        },
{
    let id = if id.unicode_len() == 0 {
        default_chain_of(exec_name)
    } else {
        id
    };
    if text_is(id, "kusama") {
        Ok(SpecChoice::Predefined(Network::Kusama, Config::Live))
    } else if native.kusama && text_is(id, "kusama-dev") {
        Ok(SpecChoice::Predefined(Network::Kusama, Config::Development))
    } else if native.kusama && text_is(id, "kusama-local") {
        Ok(SpecChoice::Predefined(Network::Kusama, Config::LocalTestnet))
    } else if native.kusama && text_is(id, "kusama-staging") {
        Ok(SpecChoice::Predefined(Network::Kusama, Config::StagingTestnet))
    } else if !native.kusama && text_starts_with(id, "kusama-") && !text_ends_with(id, ".json") {
        Err(missing_runtime_text(id, "kusama-native"))
    } else if text_is(id, "polkadot") {
        Ok(SpecChoice::Predefined(Network::Polkadot, Config::Live))
    } else if native.polkadot && (text_is(id, "polkadot-dev") || text_is(id, "dev")) {
        Ok(SpecChoice::Predefined(Network::Polkadot, Config::Development))
    } else if native.polkadot && text_is(id, "polkadot-local") {
        Ok(SpecChoice::Predefined(Network::Polkadot, Config::LocalTestnet))
    } else if native.polkadot && text_is(id, "polkadot-staging") {
        Ok(SpecChoice::Predefined(Network::Polkadot, Config::StagingTestnet))
    } else if text_is(id, "rococo") {
        Ok(SpecChoice::Predefined(Network::Rococo, Config::Live))
    } else if native.rococo && text_is(id, "rococo-dev") {
        Ok(SpecChoice::Predefined(Network::Rococo, Config::Development))
    } else if native.rococo && text_is(id, "rococo-local") {
        Ok(SpecChoice::Predefined(Network::Rococo, Config::LocalTestnet))
    } else if native.rococo && text_is(id, "rococo-staging") {
        Ok(SpecChoice::Predefined(Network::Rococo, Config::StagingTestnet))
    } else if !native.rococo && text_starts_with(id, "rococo-") && !text_ends_with(id, ".json") {
        Err(missing_runtime_text(id, "rococo-native"))
    } else if text_is(id, "westend") {
        Ok(SpecChoice::Predefined(Network::Westend, Config::Live))
    } else if native.westend && text_is(id, "westend-dev") {
        Ok(SpecChoice::Predefined(Network::Westend, Config::Development))
    } else if native.westend && text_is(id, "westend-local") {
        Ok(SpecChoice::Predefined(Network::Westend, Config::LocalTestnet))
    } else if native.westend && text_is(id, "westend-staging") {
        Ok(SpecChoice::Predefined(Network::Westend, Config::StagingTestnet))
    } else if !native.westend && text_starts_with(id, "westend-") && !text_ends_with(id, ".json") {
        Err(missing_runtime_text(id, "westend-native"))
    } else if text_is(id, "wococo") {
        Ok(SpecChoice::Predefined(Network::Wococo, Config::Live))
    } else if native.rococo && text_is(id, "wococo-dev") {
        Ok(SpecChoice::Predefined(Network::Wococo, Config::Development))
    } else if native.rococo && text_is(id, "wococo-local") {
        Ok(SpecChoice::Predefined(Network::Wococo, Config::LocalTestnet))
    } else if !native.rococo && text_starts_with(id, "wococo-") {
        Err(missing_runtime_text(id, "rococo-native"))
    } else if native.rococo && text_is(id, "versi-dev") {
        Ok(SpecChoice::Predefined(Network::Versi, Config::Development))
    } else if native.rococo && text_is(id, "versi-local") {
        Ok(SpecChoice::Predefined(Network::Versi, Config::LocalTestnet))
    } else if native.rococo && text_is(id, "versi-staging") {
        Ok(SpecChoice::Predefined(Network::Versi, Config::StagingTestnet))
    } else if !native.rococo && text_starts_with(id, "versi-") {
        Err(missing_runtime_text(id, "rococo-native"))
    } else {
        Ok(SpecChoice::File)
    }
}

/// What a chain specification file is loaded as.
#[derive(Clone, Copy, Debug, PartialEq, Eq, Structural)]
pub enum FileSpecKind {
    /// A Rococo chain specification (also for Wococo and Versi).
    Rococo,
    /// A Kusama chain specification.
    Kusama,
    /// A Westend chain specification.
    Westend,
    /// A Polkadot chain specification.
    Polkadot,
}

/// What a chain specification file is loaded as, given the `force_*` flags
/// and the network that the file's chain id names (as read from the file): a
/// flag or the file's network decides, Rococo (with Wococo and Versi) first,
/// then Kusama, then Westend; Polkadot otherwise.
pub fn file_spec_kind(
    force_rococo: bool,
    force_kusama: bool,
    force_westend: bool,
    file_network: Option<Network>,
) -> (r: FileSpecKind)
    ensures
        r == if force_rococo || file_network == Some(Network::Rococo) || file_network == Some(Network::Wococo)
            || file_network == Some(Network::Versi) {
            FileSpecKind::Rococo
        } else if force_kusama || file_network == Some(Network::Kusama) {
            FileSpecKind::Kusama
        } else if force_westend || file_network == Some(Network::Westend) {
            FileSpecKind::Westend
        } else {
            FileSpecKind::Polkadot
        },
{
    let rococo_like = match file_network {
        Some(Network::Rococo) | Some(Network::Wococo) | Some(Network::Versi) => true,
        _ => false,
    };
    let kusama = match file_network {
        Some(Network::Kusama) => true,
        _ => false,
    };
    let westend = match file_network {
        Some(Network::Westend) => true,
        _ => false,
    };
    if force_rococo || rococo_like {
        FileSpecKind::Rococo
    } else if force_kusama || kusama {
        FileSpecKind::Kusama
    } else if force_westend || westend {
        FileSpecKind::Westend
    } else {
        FileSpecKind::Polkadot
    }
}

} // verus!
