//! The configuration and the places that everything is kept at.

use vstd::prelude::*;

use crate::address;
use crate::error;
use crate::error::{caused, Error};
use crate::text;
use crate::text::{blank, first_word, lines, lossy, owned, same, trim};

verus! {

pub const BASE_PATH: &'static str = "/var/priosun";

pub const BASE_DATASET_PATH: &'static str = "/var/priosun/base";

pub const JAIL_BASE: &'static str = "/var/priosun/jail";

pub const VM_BASE: &'static str = "/var/priosun/vm";

pub const SEED_BASE: &'static str = "/var/priosun/seed";

pub const IMAGE_BASE: &'static str = "/var/priosun/images";

pub const LOG_BASE: &'static str = "/var/log/priosun";

/// Where the configuration is read from unless another place is named.
pub const CONFIG_PATH: &'static str = "/etc/local/etc/priosun.toml";

/// The configuration.
#[derive(Debug, Clone)]
pub struct Config {
    pub version: String,
    pub master_ip6: String,
    pub bridge: String,
    pub bridge_ip: String,
    pub bridge_ip6: String,
    pub use_ipv4: bool,
    pub use_ipv6: bool,
    pub network_ip: String,
    pub network_ip6: String,
    pub domain: String,
    pub zfs_pool: String,
    pub pkg_mirror: String,
    pub pkg_repo: String,
    pub pkg_proxy: String,
    pub ipv6_prefix: String,
    pub dhcp: String,
    pub projects_dir: Option<String>,
    pub bridge_members: Vec<String>,
    pub dns_override: Vec<String>,
    pub resolv_conf: String,
    pub pkg_repos: Vec<String>,
    pub allow: Vec<String>,
    pub prestart: Option<String>,
    pub poststart: Option<String>,
    pub prestop: Option<String>,
    pub poststop: Option<String>,
    pub vm_firmware: String,
}

/// Whether a configuration has the default names and switches.
pub open spec fn has_default_names(config: Config) -> bool {
    &&& config.version@ == "0.1.0"@
    &&& config.zfs_pool@ == ""@
    &&& config.domain@ == ""@
    &&& config.dhcp@ == "dhcpcd"@
    &&& config.pkg_mirror@ == "pkg.FreeBSD.org"@
    &&& config.pkg_repo@ == "latest"@
    &&& config.pkg_proxy@ == "no"@
    &&& config.pkg_repos@.len() == 0
    &&& config.allow@.len() == 0
    &&& config.prestart is None
    &&& config.poststart is None
    &&& config.prestop is None
    &&& config.poststop is None
}

/// Whether a configuration has the default network.
pub open spec fn has_default_network(config: Config) -> bool {
    &&& config.master_ip6@ == ":2"@
    &&& config.bridge@ == "jails"@
    &&& config.bridge_ip@ == "172.16.0.254"@
    &&& config.bridge_ip6@ == ":1"@
    &&& config.use_ipv4
    &&& config.use_ipv6
    &&& config.network_ip@ == "172.16.0.253"@
    &&& config.network_ip6@ == ":2"@
    &&& config.ipv6_prefix@ == "fd10:6c79:8ae5:8b91:"@
    &&& config.bridge_members@.len() == 0
    &&& config.dns_override@.len() == 0
}

/// Whether a configuration has the default files and directories.
pub open spec fn has_default_paths(config: Config) -> bool {
    &&& config.projects_dir matches Some(directory) && directory@ == "/var/empty"@
    &&& config.resolv_conf@ == "/etc/resolv.conf"@
    &&& config.vm_firmware@ == "/usr/local/share/uefi-firmware/BHYVE_UEFI.fd"@
}

/// Whether a configuration is the default one.
pub open spec fn is_default(config: Config) -> bool {
    has_default_names(config) && has_default_network(config) && has_default_paths(config)
}

impl Default for Config {
    fn default() -> (config: Config)
        ensures
            is_default(config),
    {
        Config {
            version: owned("0.1.0"),
            master_ip6: owned(":2"),
            bridge: owned("jails"),
            bridge_ip: owned("172.16.0.254"),
            bridge_ip6: owned(":1"),
            use_ipv4: true,
            use_ipv6: true,
            network_ip: owned("172.16.0.253"),
            network_ip6: owned(":2"),
            domain: owned(""),
            zfs_pool: owned(""),
            pkg_mirror: owned("pkg.FreeBSD.org"),
            pkg_repo: owned("latest"),
            pkg_proxy: owned("no"),
            ipv6_prefix: owned("fd10:6c79:8ae5:8b91:"),
            dhcp: owned("dhcpcd"),
            projects_dir: Some(owned("/var/empty")),
            bridge_members: Vec::new(),
            dns_override: Vec::new(),
            resolv_conf: owned("/etc/resolv.conf"),
            pkg_repos: Vec::new(),
            allow: Vec::new(),
            prestart: None,
            poststart: None,
            prestop: None,
            poststop: None,
            vm_firmware: owned("/usr/local/share/uefi-firmware/BHYVE_UEFI.fd"),
        }
    }
}

impl Config {
    /// Whether the pool has to be found out.
    pub fn lacks_pool(&self) -> (result: bool)
        ensures
            result == (text::trim_spec(self.zfs_pool@).len() == 0),
    {
        blank(self.zfs_pool.as_str())
    }
}

/// The dataset of a path: the pool, then the path.
pub open spec fn dataset_spec(pool: Seq<char>, path: Seq<char>) -> Seq<char> {
    pool + path
}

/// The dataset of a path.
pub fn dataset(config: &Config, path: &str) -> (result: String)
    ensures
        result@ == dataset_spec(config.zfs_pool@, path@),
{
    owned(config.zfs_pool.as_str()).concat(path)
}

/// The value behind the first `--config` at or behind `from`, if it has one.
pub open spec fn config_option(args: Seq<Seq<char>>, from: int) -> Option<Seq<char>>
    decreases args.len() - from,
{
    if from < 0 || from + 1 >= args.len() {
        None
    } else if args[from] == "--config"@ {
        Some(args[from + 1])
    } else {
        config_option(args, from + 1)
    }
}

/// The configuration file that the arguments of a program name, if they do.
pub fn config_path(args: &Vec<String>) -> (path: Option<String>)
    ensures
        match path {
            Some(path) => config_option(text::views(args@), 0) == Some(path@),
            None => config_option(text::views(args@), 0) is None,
        },
{
    let mut index: usize = 0;
    while index < args.len() && index + 1 < args.len()
        invariant
            index <= args@.len(),
            config_option(text::views(args@), 0) == config_option(
                text::views(args@),
                index as int,
            ),
        decreases args@.len() - index,
    {
        if same(args[index].as_str(), "--config") {
            return Some(args[index + 1].clone());
        }
        index += 1;
    }
    None
}

/// The first words of the lines that have one.
pub open spec fn pool_names(listing: Seq<Seq<char>>) -> Seq<Seq<char>>
    decreases listing.len(),
{
    if listing.len() == 0 {
        seq![]
    } else {
        let before = pool_names(listing.drop_last());
        let word = text::first_word_spec(listing.last());
        if word.len() == 0 {
            before
        } else {
            before.push(word)
        }
    }
}

/// The only pool of a listing.
pub open spec fn pool_spec(listing: Seq<char>) -> Result<Seq<char>, Seq<char>> {
    let pools = pool_names(text::lines_spec(listing));
    if pools.len() == 1 {
        Ok(pools[0])
    } else if pools.len() == 0 {
        Err("no ZFS pools are available"@)
    } else {
        Err("zfs_pool is not set and multiple ZFS pools are available"@)
    }
}

fn only_pool(listing: &str) -> (result: Result<String, Error>)
    ensures
        error::text_outcome(result) == pool_spec(listing@),
{
    let rows = lines(listing);
    let mut pools: Vec<String> = Vec::new();
    let mut index: usize = 0;
    proof {
        assert(text::views(pools@) =~= pool_names(text::views(rows@).take(0)));
    }
    while index < rows.len()
        invariant
            index <= rows@.len(),
            text::views(pools@) == pool_names(text::views(rows@).take(index as int)),
        decreases rows@.len() - index,
    {
        let word = first_word(rows[index].as_str());
        let ghost before = pools@;
        proof {
            let step = text::views(rows@).take(index + 1);
            assert(step.drop_last() =~= text::views(rows@).take(index as int));
            assert(step.last() == rows@[index as int]@);
        }
        if !word.as_str().is_empty() {
            pools.push(word);
            proof {
                assert(text::views(pools@) =~= text::views(before).push(word@));
            }
        }
        index += 1;
    }
    proof {
        assert(text::views(rows@).take(index as int) =~= text::views(rows@));
    }
    if pools.len() == 1 {
        Ok(pools[0].clone())
    } else if pools.len() == 0 {
        Err(Error::new(owned("no ZFS pools are available")))
    } else {
        Err(Error::new(owned("zfs_pool is not set and multiple ZFS pools are available")))
    }
}

/// The pool to use, from what `zpool list -H` prints, if it succeeds.
pub open spec fn discovery_spec(succeeded: bool, stdout: Seq<u8>, stderr: Seq<u8>) -> Result<
    Seq<char>,
    Seq<char>,
> {
    if succeeded {
        pool_spec(text::lossy_spec(stdout))
    } else {
        Err("zpool list -H failed: "@ + text::trim_spec(text::lossy_spec(stderr)))
    }
}

/// Finds the pool to use in what `zpool list -H` prints: the only one there is.
pub fn discover_zfs_pool(succeeded: bool, stdout: &[u8], stderr: &[u8]) -> (result: Result<
    String,
    Error,
>)
    ensures
        error::text_outcome(result) == discovery_spec(succeeded, stdout@, stderr@),
{
    if !succeeded {
        return Err(
            Error::new(
                owned("zpool list -H failed: ").concat(trim(lossy(stderr).as_str()).as_str()),
            ),
        );
    }
    only_pool(lossy(stdout).as_str())
}

/// What was found of the configuration file.
#[derive(Debug)]
pub enum ConfigFile {
    /// There is none.
    Absent,
    /// It could not be read, for this reason.
    Unreadable(String),
    /// It could not be understood, for this reason.
    Invalid(String),
    Loaded(Config),
}

impl ConfigFile {
    /// Whether the pool has to be found out.
    pub fn lacks_pool(&self) -> (result: bool)
        ensures
            result == match self {
                ConfigFile::Absent => true,
                ConfigFile::Loaded(config) => text::trim_spec(config.zfs_pool@).len() == 0,
                _ => false,
            },
    {
        match self {
            ConfigFile::Absent => true,
            ConfigFile::Loaded(config) => config.lacks_pool(),
            _ => false,
        }
    }
}

impl Config {
    /// The configuration of a file, or the default one, with the pool that was found out if
    /// it names none.
    pub fn load(path: &str, file: ConfigFile, pool: Result<String, Error>) -> (result: Result<
        Config,
        Error,
    >)
        ensures
            match (file, pool, result) {
                (ConfigFile::Unreadable(reason), _, Err(error)) => error@ == error::with_cause(
                    "failed to read "@ + path@,
                    reason@,
                ),
                (ConfigFile::Invalid(reason), _, Err(error)) => error@ == error::with_cause(
                    "failed to parse "@ + path@ + " as TOML"@,
                    reason@,
                ),
                (ConfigFile::Absent, Err(reason), Err(error)) => error == reason,
                (ConfigFile::Absent, Ok(pool), Ok(config)) => config.zfs_pool == pool
                    && exists|default: Config| #[trigger]
                    is_default(default) && config == (Config { zfs_pool: pool, ..default }),
                (ConfigFile::Loaded(loaded), Ok(pool), Ok(config)) => if text::trim_spec(
                    loaded.zfs_pool@,
                ).len() == 0 {
                    config == (Config { zfs_pool: pool, ..loaded })
                } else {
                    config == loaded
                },
                (ConfigFile::Loaded(loaded), Err(_), Ok(config)) => text::trim_spec(
                    loaded.zfs_pool@,
                ).len() > 0 && config == loaded,
                (ConfigFile::Loaded(loaded), Err(reason), Err(error)) => text::trim_spec(
                    loaded.zfs_pool@,
                ).len() == 0 && error == reason,
                _ => false,
            },
    {
        let mut config = match file {
            ConfigFile::Unreadable(reason) => {
                return Err(caused(owned("failed to read ").concat(path), reason.as_str()));
            },
            ConfigFile::Invalid(reason) => {
                return Err(
                    caused(
                        owned("failed to parse ").concat(path).concat(" as TOML"),
                        reason.as_str(),
                    ),
                );
            },
            ConfigFile::Absent => Config::default(),
            ConfigFile::Loaded(config) => config,
        };
        proof {
            reveal_strlit("");
            assert(text::trim_spec(""@) =~= ""@);
        }
        if config.lacks_pool() {
            match pool {
                Ok(pool) => {
                    config.zfs_pool = pool;
                },
                Err(error) => {
                    return Err(error);
                },
            }
        }
        Ok(config)
    }
}

proof fn lemma_config_option(args: Seq<Seq<char>>, from: int, at: int)
    requires
        0 <= from <= at,
        at + 1 < args.len(),
        args[at] == "--config"@,
        forall|i: int| from <= i < at ==> #[trigger] args[i] != "--config"@,
    ensures
        config_option(args, from) == Some(args[at + 1]),
    decreases at - from,
{
    if from < at {
        assert(args[from] != "--config"@);
        lemma_config_option(args, from + 1, at);
    }
}

proof fn lemma_no_config_option(args: Seq<Seq<char>>, from: int)
    requires
        0 <= from,
        forall|i: int| from <= i < args.len() - 1 ==> #[trigger] args[i] != "--config"@,
    ensures
        config_option(args, from) is None,
    decreases args.len() - from,
{
    if from + 1 < args.len() {
        assert(args[from] != "--config"@);
        lemma_no_config_option(args, from + 1);
    }
}

/// The configuration that is named is the one behind the first `--config`; none is named where
/// nothing stands behind one.
pub proof fn law_first_config_option_counts(args: Seq<Seq<char>>, at: int)
    requires
        0 <= at <= args.len(),
        forall|i: int| 0 <= i < at ==> #[trigger] args[i] != "--config"@,
        at < args.len() ==> args[at] == "--config"@,
    ensures
        at + 1 < args.len() ==> config_option(args, 0) == Some(args[at + 1]),
        at + 1 >= args.len() ==> config_option(args, 0) is None,
{
    if at + 1 < args.len() {
        lemma_config_option(args, 0, at);
    } else {
        lemma_no_config_option(args, 0);
    }
}

/// The pool is found exactly if there is one: the only line that names a pool names it with
/// its first word. With none and with several there is none to go by.
pub proof fn law_only_pool_is_found(first: Seq<char>, rest: Seq<char>)
    requires
        first.len() > 0,
        forall|i: int| 0 <= i < first.len() ==> !text::is_white(#[trigger] first[i]),
        rest.len() > 0 ==> text::is_white(rest[0]),
        !rest.contains('\n') && !rest.contains('\r'),
    ensures
        ({
            let line = first + rest + seq!['\n'];
            &&& pool_spec(line) == Ok::<Seq<char>, Seq<char>>(first)
            &&& pool_spec(seq![]) is Err
            &&& pool_spec(line + line) is Err
        }),
{
    let own = first + rest;
    let none: Seq<char> = seq![];
    assert forall|i: int| 0 <= i < own.len() implies own[i] != '\n' && own[i] != '\r' by {
        if i < first.len() {
            assert(own[i] == first[i]);
            assert(text::is_white('\n') && text::is_white('\r'));
        } else {
            assert(own[i] == rest[i - first.len()]);
            assert(rest.contains(rest[i - first.len()]));
        }
    }
    let line = own + seq!['\n'];
    text::law_lines_end_at_line_feeds(own, none);
    text::law_lines_end_at_line_feeds(own, line);
    assert(line =~= own + seq!['\n'] + none);
    assert(text::lines_spec(line) =~= seq![own]);
    assert(line + line =~= own + seq!['\n'] + line);
    assert(text::lines_spec(line + line) =~= seq![own, own]);
    text::law_first_word_ends_at_white_space(none, first, rest);
    assert(none + first + rest =~= own);
    assert(first + rest + seq!['\n'] =~= line);
    reveal_with_fuel(pool_names, 3);
    assert(seq![own].drop_last() =~= seq![]);
    assert(seq![own, own].drop_last() =~= seq![own]);
    assert(pool_names(seq![own]) =~= seq![first]);
    assert(pool_names(seq![own, own]) =~= seq![first, first]);
}

/// A pool is asked for in vain where the command that lists pools fails, whatever it prints.
pub proof fn law_failed_discovery_finds_nothing(succeeded: bool, stdout: Seq<u8>, stderr: Seq<u8>)
    ensures
        !succeeded ==> discovery_spec(succeeded, stdout, stderr) is Err,
        succeeded ==> discovery_spec(succeeded, stdout, stderr) == pool_spec(
            text::lossy_spec(stdout),
        ),
{
}

/// Everything that is managed is kept below one directory, apart from each other, and the
/// dataset of a path is the path in the pool: two paths have two datasets.
pub proof fn law_paths_have_their_own_datasets(pool: Seq<char>, first: Seq<char>, second: Seq<char>)
    ensures
        dataset_spec(pool, first) == dataset_spec(pool, second) ==> first == second,
        dataset_spec(pool, first) == pool + first,
        BASE_PATH@ == "/var/priosun"@,
        CONFIG_PATH@ == "/etc/local/etc/priosun.toml"@,
{
    assert((pool + first).skip(pool.len() as int) =~= first);
    assert((pool + second).skip(pool.len() as int) =~= second);
}

/// The network that is managed by default is usable as it is: both address families are in
/// use, the bridge and the network jail have addresses of one network of 256 that are not the
/// same, and neither lies among those that are given away.
pub proof fn law_default_network_is_usable(config: Config)
    requires
        is_default(config),
    ensures
        config.use_ipv4 && config.use_ipv6,
        address::ipv4_spec(config.bridge_ip@) == Some(seq![172u8, 16, 0, 254]),
        address::ipv4_spec(config.network_ip@) == Some(seq![172u8, 16, 0, 253]),
        config.bridge_ip6@ != config.network_ip6@,
        config.bridge@ == "jails"@,
        config.dhcp@ == "dhcpcd"@,
        config.pkg_proxy@ == "no"@,
        config.dns_override@.len() == 0 && config.bridge_members@.len() == 0,
        text::trim_spec(config.zfs_pool@).len() == 0,
{
    let bridge = seq![172u8, 16, 0, 254];
    let network = seq![172u8, 16, 0, 253];
    address::law_ipv4_text_reads_back(bridge);
    address::law_ipv4_text_reads_back(network);
    reveal_with_fuel(text::decimal_spec, 4);
    reveal_strlit(".");
    reveal_strlit("172.16.0.254");
    reveal_strlit("172.16.0.253");
    reveal_strlit(":1");
    reveal_strlit(":2");
    reveal_strlit("");
    assert(text::decimal_spec(172) =~= seq!['1', '7', '2']);
    assert(text::decimal_spec(16) =~= seq!['1', '6']);
    assert(text::decimal_spec(0) =~= seq!['0']);
    assert(text::decimal_spec(254) =~= seq!['2', '5', '4']);
    assert(text::decimal_spec(253) =~= seq!['2', '5', '3']);
    assert(address::ipv4_text_spec(bridge) =~= "172.16.0.254"@);
    assert(address::ipv4_text_spec(network) =~= "172.16.0.253"@);
    assert(":1"@[1] == '1' && ":2"@[1] == '2');
    assert(text::trim_spec(""@) =~= ""@);
}

} // verus!
