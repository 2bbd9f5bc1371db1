//! The managed network: the bridge of the host, the jail that serves addresses and names,
//! and the resolver of the host.

use vstd::prelude::*;

use crate::address;
use crate::address::{ipv4_reverse_zone, ipv4_text, ipv6_reverse_zone, network_text, parse_ipv4, Ipv6Address, Ipv6Model};
use crate::config::Config;
use crate::error;
use crate::error::{caused, Error};
use crate::jail;
use crate::jail::{mount, root_path, CreateOptions};
use crate::nameservice;
use crate::plan;
use crate::plan::{command, Act, Action, Command, CommandLine, Plan, PlanModel};
use crate::snapshot;
use crate::snapshot::Snapshot;
use crate::text;
use crate::text::{blank, contains_line, drop_white, join_path, owned, trim};

verus! {

/// The jail that serves the managed network.
pub const NETWORK_JAIL: &'static str = "network";

/// Where the resolver of the host keeps its files.
pub const UNBOUND_PATH: &'static str = "/var/unbound";

/// The root directory of the jail that serves the managed network.
pub open spec fn network_root() -> Seq<char> {
    jail::jail_path(NETWORK_JAIL@)
}

/// A path in the jail that serves the managed network.
pub open spec fn network_file(path: Seq<char>) -> Seq<char> {
    text::join_path_spec(network_root(), path)
}

fn file(path: &str) -> (result: String)
    ensures
        result@ == network_file(path@),
{
    join_path(root_path(NETWORK_JAIL).as_str(), path)
}

// ---------------------------------------------------------------------------
// The host
// ---------------------------------------------------------------------------

/// How the members of the bridge are named to `ifconfig`.
pub open spec fn members_spec(members: Seq<Seq<char>>) -> Seq<char>
    decreases members.len(),
{
    if members.len() == 0 {
        ""@
    } else {
        members_spec(members.drop_last()) + " addm "@ + members.last()
    }
}

fn member_list(members: &Vec<String>) -> (result: String)
    ensures
        result@ == members_spec(text::views(members@)),
{
    let ghost model = text::views(members@);
    let mut result = owned("");
    let mut index: usize = 0;
    while index < members.len()
        invariant
            index <= members@.len(),
            model == text::views(members@),
            result@ == members_spec(model.take(index as int)),
        decreases members@.len() - index,
    {
        proof {
            assert(model.take(index + 1).drop_last() =~= model.take(index as int));
            assert(model.take(index + 1).last() == members@[index as int]@);
        }
        result = result.concat(" addm ").concat(members[index].as_str());
        index += 1;
    }
    proof {
        assert(model.take(index as int) =~= model);
    }
    result
}

/// The settings that make the bridge of the host, in the address families in use.
pub open spec fn host_settings(config: Config) -> CommandLine {
    let named = plan::line("sysrc"@).arg("cloned_interfaces+=bridge0"@).arg(
        "ifconfig_bridge0_name="@ + config.bridge@,
    );
    let first = if config.use_ipv4 {
        named.arg(
            "ifconfig_"@ + config.bridge@ + "=inet "@ + config.bridge_ip@
                + " netmask 255.255.255.0"@ + members_spec(text::views(config.bridge_members@)),
        )
    } else {
        named
    };
    if config.use_ipv6 {
        first.arg(
            "ifconfig_"@ + config.bridge@ + "_ipv6=inet6 -ifdisabled auto_linklocal "@
                + config.ipv6_prefix@ + config.bridge_ip6@,
        )
    } else {
        first
    }
}

/// How the bridge of the host is set up and activated.
pub open spec fn host_plan(config: Config) -> PlanModel {
    plan::no_steps().run(host_settings(config)).run(
        plan::line("service"@).arg("netif"@).arg("cloneup"@),
    )
}

/// Plans to set up the bridge of the host.
pub fn configure_host_network(config: &Config) -> (plan: Plan)
    ensures
        plan@ == host_plan(*config),
{
    let named = command("sysrc").arg("cloned_interfaces+=bridge0").arg(
        owned("ifconfig_bridge0_name=").concat(config.bridge.as_str()).as_str(),
    );
    let members = member_list(&config.bridge_members);
    let first = if config.use_ipv4 {
        named.arg(
            owned("ifconfig_").concat(config.bridge.as_str()).concat("=inet ").concat(
                config.bridge_ip.as_str(),
            ).concat(" netmask 255.255.255.0").concat(members.as_str()).as_str(),
        )
    } else {
        named
    };
    let settings = if config.use_ipv6 {
        first.arg(
            owned("ifconfig_").concat(config.bridge.as_str()).concat(
                "_ipv6=inet6 -ifdisabled auto_linklocal ",
            ).concat(config.ipv6_prefix.as_str()).concat(config.bridge_ip6.as_str()).as_str(),
        )
    } else {
        first
    };
    Plan::new().run(settings).run(command("service").arg("netif").arg("cloneup"))
}

// ---------------------------------------------------------------------------
// The stages
// ---------------------------------------------------------------------------

/// A stage of setting up the managed network.
#[derive(Debug, Clone, Copy, PartialEq, Eq, Structural)]
pub enum Stage {
    /// What `configure_host_network` plans.
    Bridge,
    /// The jail that `network_jail` describes is created.
    CreateJail,
    /// What `install_packages` plans.
    InstallPackages,
    /// What `configure_network` plans.
    ConfigureNetwork,
    /// What `configure_services` plans.
    ConfigureServices,
    /// What `mount_host_unbound` plans.
    MountUnbound,
    /// The jail is started.
    StartJail,
    /// What `configure_host_unbound` plans.
    ConfigureUnbound,
    /// What `export_projects` plans.
    ExportProjects,
}

/// The stages of setting up the managed network; the jail is created if there is none.
pub open spec fn stages_spec(files: Snapshot) -> Seq<Stage> {
    let begun = if snapshot::is_dir_at(files, network_root()) {
        seq![Stage::Bridge]
    } else {
        seq![Stage::Bridge, Stage::CreateJail]
    };
    begun + seq![
        Stage::InstallPackages,
        Stage::ConfigureNetwork,
        Stage::ConfigureServices,
        Stage::MountUnbound,
        Stage::StartJail,
        Stage::ConfigureUnbound,
        Stage::ExportProjects,
    ]
}

/// What comes of asking for the managed network: it takes an address family.
pub open spec fn init_spec(config: Config, files: Snapshot) -> Result<Seq<Stage>, Seq<char>> {
    if !config.use_ipv4 && !config.use_ipv6 {
        Err("use_ipv4 or use_ipv6 must be enabled"@)
    } else {
        Ok(stages_spec(files))
    }
}

/// The stages of setting up the managed network, in their order.
pub fn init(config: &Config, files: &Snapshot) -> (result: Result<Vec<Stage>, Error>)
    ensures
        match result {
            Ok(stages) => init_spec(*config, *files) == Ok::<Seq<Stage>, Seq<char>>(stages@),
            Err(error) => init_spec(*config, *files) == Err::<Seq<Stage>, Seq<char>>(error@),
        },
{
    if !config.use_ipv4 && !config.use_ipv6 {
        return Err(Error::new(owned("use_ipv4 or use_ipv6 must be enabled")));
    }
    let mut stages: Vec<Stage> = Vec::new();
    stages.push(Stage::Bridge);
    if !jail::path_exists(NETWORK_JAIL, files) {
        stages.push(Stage::CreateJail);
    }
    stages.push(Stage::InstallPackages);
    stages.push(Stage::ConfigureNetwork);
    stages.push(Stage::ConfigureServices);
    stages.push(Stage::MountUnbound);
    stages.push(Stage::StartJail);
    stages.push(Stage::ConfigureUnbound);
    stages.push(Stage::ExportProjects);
    proof {
        assert(stages@ =~= stages_spec(*files));
    }
    Ok(stages)
}

/// The managed network can be set up exactly if an address family is enabled.
pub proof fn law_network_needs_an_address_family(config: Config, files: Snapshot)
    ensures
        init_spec(config, files) is Ok <==> config.use_ipv4 || config.use_ipv6,
{
}

/// The jail that serves the managed network, as it is created.
pub fn network_jail() -> (options: CreateOptions)
    ensures
        options.name@ == NETWORK_JAIL@,
        options.set is None && options.version is None && !options.base,
        options.from_base is None && options.ssh_key is None,
{
    CreateOptions {
        name: owned(NETWORK_JAIL),
        set: None,
        version: None,
        base: false,
        from_base: None,
        ssh_key: None,
    }
}

// ---------------------------------------------------------------------------
// The jail
// ---------------------------------------------------------------------------

/// How the servers are installed in the jail.
pub open spec fn packages_plan() -> PlanModel {
    plan::no_steps().tell("Installing Kea DHCP and Knot DNS"@).run(
        plan::line("pkg"@).arg("-r"@).arg(network_root()).arg("install"@).arg("-y"@).arg(
            "kea"@,
        ).arg("knot3"@),
    )
}

/// Plans to install the servers in the jail.
pub fn install_packages() -> (plan: Plan)
    ensures
        plan@ == packages_plan(),
{
    Plan::new().tell(owned("Installing Kea DHCP and Knot DNS")).run(
        command("pkg").arg("-r").arg(root_path(NETWORK_JAIL).as_str()).arg("install").arg("-y").arg(
            "kea",
        ).arg("knot3"),
    )
}

/// The settings of the interface in the jail. The addresses must be good if IPv4 is in use.
pub open spec fn network_settings(config: Config) -> Result<CommandLine, Seq<char>> {
    let start = plan::line("sysrc"@).arg("-R"@).arg(network_root());
    let first = if !config.use_ipv4 {
        Ok(start.arg("ifconfig_eth0=NONE"@))
    } else {
        match (address::ipv4_spec(config.network_ip@), address::ipv4_spec(config.bridge_ip@)) {
            (None, _) => Err(
                error::with_cause("invalid network_ip: "@ + config.network_ip@, address::IPV4_SYNTAX@),
            ),
            (Some(_), None) => Err(
                error::with_cause("invalid bridge_ip: "@ + config.bridge_ip@, address::IPV4_SYNTAX@),
            ),
            (Some(network), Some(bridge)) => Ok(
                start.arg(
                    "ifconfig_eth0=inet "@ + address::ipv4_text_spec(network)
                        + " netmask 255.255.255.0"@,
                ).arg("defaultrouter="@ + address::ipv4_text_spec(bridge)),
            ),
        }
    };
    match first {
        Err(reason) => Err(reason),
        Ok(line) => Ok(
            if config.use_ipv6 {
                line.arg(
                    "ifconfig_eth0_ipv6=inet6 "@ + config.ipv6_prefix@ + config.network_ip6@
                        + "/64"@,
                ).arg("ipv6_defaultrouter="@ + config.ipv6_prefix@ + config.bridge_ip6@)
            } else {
                line.arg("ifconfig_eth0_ipv6=NONE"@)
            },
        ),
    }
}

/// Plans the settings of the interface in the jail.
pub fn configure_network(config: &Config) -> (result: Result<Plan, Error>)
    ensures
        match result {
            Ok(plan) => network_settings(*config) matches Ok(line) && plan@
                == plan::no_steps().run(line),
            Err(error) => network_settings(*config) == Err::<CommandLine, Seq<char>>(error@),
        },
{
    let start = command("sysrc").arg("-R").arg(root_path(NETWORK_JAIL).as_str());
    let first = if !config.use_ipv4 {
        start.arg("ifconfig_eth0=NONE")
    } else {
        let network = match parse_ipv4(config.network_ip.as_str()) {
            Ok(network) => network,
            Err(error) => {
                return Err(
                    caused(
                        owned("invalid network_ip: ").concat(config.network_ip.as_str()),
                        error.message.as_str(),
                    ),
                );
            },
        };
        let bridge = match parse_ipv4(config.bridge_ip.as_str()) {
            Ok(bridge) => bridge,
            Err(error) => {
                return Err(
                    caused(
                        owned("invalid bridge_ip: ").concat(config.bridge_ip.as_str()),
                        error.message.as_str(),
                    ),
                );
            },
        };
        start.arg(
            owned("ifconfig_eth0=inet ").concat(ipv4_text(&network).as_str()).concat(
                " netmask 255.255.255.0",
            ).as_str(),
        ).arg(owned("defaultrouter=").concat(ipv4_text(&bridge).as_str()).as_str())
    };
    let settings = if config.use_ipv6 {
        first.arg(
            owned("ifconfig_eth0_ipv6=inet6 ").concat(config.ipv6_prefix.as_str()).concat(
                config.network_ip6.as_str(),
            ).concat("/64").as_str(),
        ).arg(
            owned("ipv6_defaultrouter=").concat(config.ipv6_prefix.as_str()).concat(
                config.bridge_ip6.as_str(),
            ).as_str(),
        )
    } else {
        first.arg("ifconfig_eth0_ipv6=NONE")
    };
    Ok(Plan::new().run(settings))
}

// ---------------------------------------------------------------------------
// Names
// ---------------------------------------------------------------------------

/// The name of the host, as `hostname` prints it.
pub open spec fn hostname_spec(succeeded: bool, printed: Seq<char>) -> Result<
    Seq<char>,
    Seq<char>,
> {
    if !succeeded {
        Err("failed to read system hostname"@)
    } else if text::trim_spec(printed).len() == 0 {
        Err("system hostname is empty"@)
    } else {
        Ok(text::trim_spec(printed))
    }
}

/// Reads the name of the host from what `hostname` prints.
pub fn host_hostname(succeeded: bool, printed: &str) -> (result: Result<String, Error>)
    ensures
        error::text_outcome(result) == hostname_spec(succeeded, printed@),
{
    if !succeeded {
        return Err(Error::new(owned("failed to read system hostname")));
    }
    if blank(printed) {
        return Err(Error::new(owned("system hostname is empty")));
    }
    Ok(trim(printed))
}

/// The domain of the managed network: the one that the configuration sets, or else the name
/// of the host.
pub open spec fn domain_spec(config: Config, host: Result<Seq<char>, Seq<char>>) -> Result<
    Seq<char>,
    Seq<char>,
> {
    if text::trim_spec(config.domain@).len() > 0 {
        Ok(text::trim_spec(config.domain@))
    } else {
        host
    }
}

/// The domain of the managed network.
pub fn domain(config: &Config, host: &Result<String, Error>) -> (result: Result<String, Error>)
    ensures
        error::text_outcome(result) == domain_spec(*config, error::text_outcome(*host)),
{
    if !blank(config.domain.as_str()) {
        return Ok(trim(config.domain.as_str()));
    }
    match host {
        Ok(name) => Ok(owned(name.as_str())),
        Err(error) => Err(Error::new(owned(error.message.as_str()))),
    }
}

/// The command that makes a key for name updates.
pub open spec fn key_command_spec() -> CommandLine {
    plan::line("openssl"@).arg("rand"@).arg("-base64"@).arg("32"@)
}

/// The command that makes a key for name updates.
pub fn key_command() -> (result: Command)
    ensures
        result@ == key_command_spec(),
{
    command("openssl").arg("rand").arg("-base64").arg("32")
}

/// Reads the key for name updates from what `openssl` prints: all of it but white space.
pub fn generate_ddns_key(printed: &str) -> (result: Result<String, Error>)
    ensures
        match result {
            Ok(key) => key@ == text::without_white(printed@) && key@.len() > 0,
            Err(error) => text::without_white(printed@).len() == 0 && error@
                == "openssl generated an empty DDNS key"@,
        },
{
    let key = drop_white(printed);
    if key.as_str().unicode_len() == 0 {
        return Err(Error::new(owned("openssl generated an empty DDNS key")));
    }
    Ok(key)
}

// ---------------------------------------------------------------------------
// Services
// ---------------------------------------------------------------------------

/// What the services of the network are told.
#[derive(Debug)]
pub struct Services {
    pub domain: String,
    pub hostname: String,
    pub network: [u8; 4],
    pub bridge: [u8; 4],
    pub network6: [u16; 8],
}

/// What the services of the network are told, as plain values.
pub struct ServicesModel {
    pub domain: Seq<char>,
    pub hostname: Seq<char>,
    pub network: Seq<u8>,
    pub bridge: Seq<u8>,
    pub network6: Seq<u16>,
}

impl View for Services {
    type V = ServicesModel;

    open spec fn view(&self) -> ServicesModel {
        ServicesModel {
            domain: self.domain@,
            hostname: self.hostname@,
            network: self.network@,
            bridge: self.bridge@,
            network6: self.network6@,
        }
    }
}

/// What the services of the network are told, or what keeps them from being set up: a
/// missing name of the host or an address that cannot be read, in this order.
pub open spec fn services_spec(
    config: Config,
    host: Result<Seq<char>, Seq<char>>,
    network6: Result<Ipv6Model, Seq<char>>,
) -> Result<ServicesModel, Seq<char>> {
    match (
        domain_spec(config, host),
        host,
        address::ipv4_spec(config.network_ip@),
        address::ipv4_spec(config.bridge_ip@),
        network6,
    ) {
        (Err(reason), _, _, _, _) => Err(reason),
        (_, Err(reason), _, _, _) => Err(reason),
        (_, _, None, _, _) => Err(address::IPV4_SYNTAX@),
        (_, _, _, None, _) => Err(address::IPV4_SYNTAX@),
        (_, _, _, _, Err(reason)) => Err(reason),
        (Ok(domain), Ok(hostname), Some(network), Some(bridge), Ok(network6)) => Ok(
            ServicesModel { domain, hostname, network, bridge, network6: network6.segments },
        ),
    }
}

/// The IPv6 address of the network jail, as it is to be read.
pub fn network6_text(config: &Config) -> (address: String)
    ensures
        address@ == config.ipv6_prefix@ + config.network_ip6@,
{
    owned(config.ipv6_prefix.as_str()).concat(config.network_ip6.as_str())
}

/// The IPv6 address of the bridge, as it is to be read.
pub fn bridge6_text(config: &Config) -> (address: String)
    ensures
        address@ == config.ipv6_prefix@ + config.bridge_ip6@,
{
    owned(config.ipv6_prefix.as_str()).concat(config.bridge_ip6.as_str())
}

/// Collects what the services of the network are told. `network6` is what reading the
/// address of `network6_text` gave.
pub fn services(
    config: &Config,
    host: &Result<String, Error>,
    network6: &Result<Ipv6Address, Error>,
) -> (result: Result<Services, Error>)
    ensures
        match result {
            Ok(services) => services_spec(
                *config,
                error::text_outcome(*host),
                address::ipv6_result(*network6),
            ) == Ok::<ServicesModel, Seq<char>>(services@),
            Err(error) => services_spec(
                *config,
                error::text_outcome(*host),
                address::ipv6_result(*network6),
            ) == Err::<ServicesModel, Seq<char>>(error@),
        },
{
    let name = match domain(config, host) {
        Ok(name) => name,
        Err(error) => {
            return Err(error);
        },
    };
    let hostname = match host {
        Ok(hostname) => owned(hostname.as_str()),
        Err(error) => {
            return Err(Error::new(owned(error.message.as_str())));
        },
    };
    let network = match parse_ipv4(config.network_ip.as_str()) {
        Ok(network) => network,
        Err(error) => {
            return Err(error);
        },
    };
    let bridge = match parse_ipv4(config.bridge_ip.as_str()) {
        Ok(bridge) => bridge,
        Err(error) => {
            return Err(error);
        },
    };
    match network6 {
        Ok(address) => Ok(
            Services { domain: name, hostname, network, bridge, network6: address.segments },
        ),
        Err(error) => Err(Error::new(owned(error.message.as_str()))),
    }
}

/// How the directories, keys and scripts of the services are written.
pub open spec fn key_plan(services: ServicesModel, key: Seq<char>) -> PlanModel {
    plan::no_steps().must(Act::CreateDir(network_file("usr/local/etc/kea"@))).must(
        Act::CreateDir(network_file("usr/local/etc/knot"@)),
    ).must(Act::CreateDir(network_file("var/db/knot"@))).must(
        Act::Write { path: network_file("usr/local/etc/kea/ddns.key"@), text: key + "\n"@ },
    ).must(
        Act::SetMode { path: network_file("usr/local/etc/kea/ddns.key"@), mode: 0o600 },
    ).must(
        Act::Write {
            path: network_file("usr/local/etc/knot/ddns-key.conf"@),
            text: nameservice::knot_key_spec(key),
        },
    ).must(
        Act::SetMode { path: network_file("usr/local/etc/knot/ddns-key.conf"@), mode: 0o600 },
    ).must(Act::CreateDir(network_file("usr/local/share/kea/scripts"@))).must(
        Act::Write {
            path: network_file("usr/local/share/kea/scripts/priosun-unbound-flush"@),
            text: nameservice::flush_hook_spec(services.domain),
        },
    ).must(
        Act::SetMode {
            path: network_file("usr/local/share/kea/scripts/priosun-unbound-flush"@),
            mode: 0o700,
        },
    )
}

fn write_keys(services: &Services, key: &str) -> (plan: Plan)
    ensures
        plan@ == key_plan(services@, key@),
{
    Plan::new().must(Action::CreateDir(file("usr/local/etc/kea"))).must(
        Action::CreateDir(file("usr/local/etc/knot")),
    ).must(Action::CreateDir(file("var/db/knot"))).must(
        Action::Write { path: file("usr/local/etc/kea/ddns.key"), text: owned(key).concat("\n") },
    ).must(Action::SetMode { path: file("usr/local/etc/kea/ddns.key"), mode: 0o600 }).must(
        Action::Write {
            path: file("usr/local/etc/knot/ddns-key.conf"),
            text: nameservice::knot_key(key),
        },
    ).must(Action::SetMode { path: file("usr/local/etc/knot/ddns-key.conf"), mode: 0o600 }).must(
        Action::CreateDir(file("usr/local/share/kea/scripts")),
    ).must(
        Action::Write {
            path: file("usr/local/share/kea/scripts/priosun-unbound-flush"),
            text: nameservice::unbound_flush_hook(services.domain.as_str()),
        },
    ).must(
        Action::SetMode {
            path: file("usr/local/share/kea/scripts/priosun-unbound-flush"),
            mode: 0o700,
        },
    )
}

/// The file of a zone.
pub open spec fn zone_file(zone: Seq<char>) -> Seq<char> {
    text::join_path_spec(network_file("var/db/knot"@), zone + ".zone"@)
}

fn zone_path(zone: &str) -> (path: String)
    ensures
        path@ == zone_file(zone@),
{
    join_path(file("var/db/knot").as_str(), owned(zone).concat(".zone").as_str())
}

/// How the services of the network are configured and enabled.
pub open spec fn services_plan(
    services: ServicesModel,
    config: Config,
    key: Seq<char>,
) -> PlanModel {
    let domain = services.domain;
    let zone4 = address::ipv4_zone_spec(services.network);
    let zone6 = address::ipv6_zone_spec(services.network6);
    let served = key_plan(services, key).must(
        Act::Write {
            path: network_file("usr/local/etc/kea/kea-dhcp4.conf"@),
            text: nameservice::dhcp4_spec(domain, services.hostname, services.bridge),
        },
    ).must(
        Act::Write {
            path: network_file("usr/local/etc/kea/kea-dhcp6.conf"@),
            text: nameservice::dhcp6_spec(domain, config),
        },
    ).must(
        Act::Write {
            path: network_file("usr/local/etc/kea/kea-dhcp-ddns.conf"@),
            text: nameservice::ddns_spec(domain, zone4, zone6, config),
        },
    ).must(
        Act::Write {
            path: network_file("usr/local/etc/knot/knot.conf"@),
            text: nameservice::knot_spec(domain, zone4, zone6, services.network, config),
        },
    ).must(
        Act::Write {
            path: zone_file(domain),
            text: nameservice::zone_spec(domain, services.bridge, services.network, config),
        },
    );
    let first = if config.use_ipv4 {
        served.must(
            Act::Write { path: zone_file(zone4), text: nameservice::zone_head(zone4, domain) },
        )
    } else {
        served
    };
    let second = if config.use_ipv6 {
        first.must(
            Act::Write { path: zone_file(zone6), text: nameservice::zone_head(zone6, domain) },
        )
    } else {
        first
    };
    second.must(
        Act::Write {
            path: network_file("usr/local/etc/kea/keactrl.conf"@),
            text: nameservice::keactrl_spec(config),
        },
    ).run(
        plan::line("sysrc"@).arg("-R"@).arg(network_root()).arg("kea_enable=YES"@).arg(
            "knot_enable=YES"@,
        ),
    )
}

/// Plans the configuration of the services, with the key of the name updates.
pub fn configure_services(services: &Services, config: &Config, key: &str) -> (plan: Plan)
    ensures
        plan@ == services_plan(services@, *config, key@),
{
    let domain = services.domain.as_str();
    let zone4 = ipv4_reverse_zone(&services.network);
    let zone6 = ipv6_reverse_zone(&services.network6);
    let served = write_keys(services, key).must(
        Action::Write {
            path: file("usr/local/etc/kea/kea-dhcp4.conf"),
            text: nameservice::dhcp4(domain, services.hostname.as_str(), &services.bridge),
        },
    ).must(
        Action::Write {
            path: file("usr/local/etc/kea/kea-dhcp6.conf"),
            text: nameservice::dhcp6(domain, config),
        },
    ).must(
        Action::Write {
            path: file("usr/local/etc/kea/kea-dhcp-ddns.conf"),
            text: nameservice::ddns(domain, zone4.as_str(), zone6.as_str(), config),
        },
    ).must(
        Action::Write {
            path: file("usr/local/etc/knot/knot.conf"),
            text: nameservice::knot(
                domain,
                zone4.as_str(),
                zone6.as_str(),
                &services.network,
                config,
            ),
        },
    ).must(
        Action::Write {
            path: zone_path(domain),
            text: nameservice::zone(domain, &services.bridge, &services.network, config),
        },
    );
    let first = if config.use_ipv4 {
        served.must(
            Action::Write {
                path: zone_path(zone4.as_str()),
                text: nameservice::zone_start(zone4.as_str(), domain),
            },
        )
    } else {
        served
    };
    let second = if config.use_ipv6 {
        first.must(
            Action::Write {
                path: zone_path(zone6.as_str()),
                text: nameservice::zone_start(zone6.as_str(), domain),
            },
        )
    } else {
        first
    };
    second.must(
        Action::Write {
            path: file("usr/local/etc/kea/keactrl.conf"),
            text: nameservice::keactrl(config),
        },
    ).run(
        command("sysrc").arg("-R").arg(root_path(NETWORK_JAIL).as_str()).arg("kea_enable=YES").arg(
            "knot_enable=YES",
        ),
    )
}

// ---------------------------------------------------------------------------
// The resolver of the host
// ---------------------------------------------------------------------------

/// How the files of the resolver are shown to the jail.
pub open spec fn mount_plan() -> PlanModel {
    plan::no_steps().must(Act::CreateDir(UNBOUND_PATH@)).must(
        Act::CreateDir(network_file("var/unbound"@)),
    ).tell("Mounting /var/unbound at "@ + network_file("var/unbound"@)).run(
        jail::mount_spec("nullfs"@, UNBOUND_PATH@, network_file("var/unbound"@)),
    )
}

/// Plans to show the files of the resolver to the jail.
pub fn mount_host_unbound() -> (plan: Plan)
    ensures
        plan@ == mount_plan(),
{
    let inside = file("var/unbound");
    Plan::new().must(Action::CreateDir(owned(UNBOUND_PATH))).must(
        Action::CreateDir(file("var/unbound")),
    ).tell(owned("Mounting /var/unbound at ").concat(inside.as_str())).run(
        mount("nullfs", UNBOUND_PATH, inside.as_str()),
    )
}

/// What the resolver is told: the domain, the addresses of the bridge and those of the
/// network jail.
pub struct ResolverModel {
    pub domain: Seq<char>,
    pub bridge: Seq<u8>,
    pub network: Seq<u8>,
    pub bridge6: Ipv6Model,
    pub network6: Ipv6Model,
}

/// What the resolver is told, or the first thing that keeps it from being set up.
pub open spec fn resolver_spec(
    config: Config,
    host: Result<Seq<char>, Seq<char>>,
    bridge6: Result<Ipv6Model, Seq<char>>,
    network6: Result<Ipv6Model, Seq<char>>,
) -> Result<ResolverModel, Seq<char>> {
    match (
        domain_spec(config, host),
        address::ipv4_spec(config.bridge_ip@),
        address::ipv4_spec(config.network_ip@),
        bridge6,
        network6,
    ) {
        (Err(reason), _, _, _, _) => Err(reason),
        (_, None, _, _, _) => Err(address::IPV4_SYNTAX@),
        (_, _, None, _, _) => Err(address::IPV4_SYNTAX@),
        (_, _, _, Err(reason), _) => Err(reason),
        (_, _, _, _, Err(reason)) => Err(reason),
        (Ok(domain), Some(bridge), Some(network), Ok(bridge6), Ok(network6)) => Ok(
            ResolverModel { domain, bridge, network, bridge6, network6 },
        ),
    }
}

/// What `resolvconf` is to know.
pub const RESOLVCONF: &'static str = "name_servers=127.0.0.1\nresolv_conf_local_only=YES\nunbound_conf=\"/var/unbound/forward.conf\"\nunbound_pid=\"/var/run/local_unbound.pid\"\nunbound_service=\"local_unbound\"\nunbound_restart=\"service local_unbound reload\"\n";

/// How Unbound is controlled.
pub const CONTROL: &'static str = "remote-control:\n  control-enable: yes\n  control-use-cert: no\n  control-interface: /var/unbound/local.ctl\n";

/// How the resolver of the host is configured. `has_hints` says whether the root servers are
/// known already; `upstream` is the resolver configuration of the host, if there is one, or
/// what kept it from being read, which matters only where no servers are configured.
pub open spec fn unbound_plan(
    model: ResolverModel,
    config: Config,
    has_hints: bool,
    upstream: Option<Result<Seq<char>, Seq<char>>>,
) -> PlanModel {
    let start = plan::no_steps().tell("Configuring host Unbound"@).must(
        Act::CreateDir("/var/unbound/conf.d"@),
    ).must(Act::CreateDir("/var/unbound/zones"@));
    let hinted = if has_hints {
        start
    } else {
        start.run(
            plan::line("fetch"@).arg("-o"@).arg("/var/unbound/root.hints"@).arg(
                "https://www.internic.net/domain/named.cache"@,
            ),
        )
    };
    let written = hinted.run(
        plan::line("sysrc"@).arg("local_unbound_enable=YES"@).arg("local_unbound_tls=NO"@).arg(
            "local_unbound_svcj=YES"@,
        ),
    ).must(
        Act::Write {
            path: "/var/unbound/unbound.conf"@,
            text: nameservice::unbound_spec(model.bridge, model.bridge6.text, config),
        },
    ).must(
        Act::Write {
            path: "/var/unbound/priosun.conf"@,
            text: nameservice::forwards_spec(
                model.domain,
                model.bridge,
                model.network,
                model.network6,
                config,
            ),
        },
    ).must(Act::Write { path: "/var/unbound/control.conf"@, text: CONTROL@ }).must(
        Act::Write { path: "/var/unbound/lan-zones.conf"@, text: ""@ },
    );
    match upstream {
        Some(Err(reason)) if config.dns_override@.len() == 0 => written.fail(reason),
        _ => written.must(
            Act::Write {
                path: "/var/unbound/forward.conf"@,
                text: nameservice::forward_lines(
                    nameservice::upstream_servers(
                        config,
                        match upstream {
                            Some(Ok(content)) => Some(content),
                            _ => None,
                        },
                    ),
                ),
            },
        ).must(Act::Write { path: "/etc/resolvconf.conf"@, text: RESOLVCONF@ }).run(
            plan::line("chown"@).arg("-R"@).arg("unbound:unbound"@).arg("/var/unbound"@),
        ).run(plan::line("service"@).arg("local_unbound"@).arg("restart"@)).run(
            plan::line("resolvconf"@).arg("-u"@),
        ),
    }
}

/// What there is of the resolver configuration, as characters.
pub open spec fn upstream_view(upstream: Option<Result<String, Error>>) -> Option<
    Result<Seq<char>, Seq<char>>,
> {
    match upstream {
        Some(content) => Some(error::text_outcome(content)),
        None => None,
    }
}

fn write_unbound(
    domain: &str,
    bridge: &[u8; 4],
    network: &[u8; 4],
    bridge6: &Ipv6Address,
    network6: &Ipv6Address,
    config: &Config,
    has_hints: bool,
    upstream: &Option<Result<String, Error>>,
) -> (plan: Plan)
    ensures
        plan@ == unbound_plan(
            (ResolverModel {
                domain: domain@,
                bridge: bridge@,
                network: network@,
                bridge6: bridge6@,
                network6: network6@,
            }),
            *config,
            has_hints,
            upstream_view(*upstream),
        ),
{
    let start = Plan::new().tell(owned("Configuring host Unbound")).must(
        Action::CreateDir(owned("/var/unbound/conf.d")),
    ).must(Action::CreateDir(owned("/var/unbound/zones")));
    let hinted = if has_hints {
        start
    } else {
        start.run(
            command("fetch").arg("-o").arg("/var/unbound/root.hints").arg(
                "https://www.internic.net/domain/named.cache",
            ),
        )
    };
    let written = hinted.run(
        command("sysrc").arg("local_unbound_enable=YES").arg("local_unbound_tls=NO").arg(
            "local_unbound_svcj=YES",
        ),
    ).must(
        Action::Write {
            path: owned("/var/unbound/unbound.conf"),
            text: nameservice::unbound(bridge, bridge6.text.as_str(), config),
        },
    ).must(
        Action::Write {
            path: owned("/var/unbound/priosun.conf"),
            text: nameservice::forwards(domain, bridge, network, network6, config),
        },
    ).must(
        Action::Write { path: owned("/var/unbound/control.conf"), text: owned(CONTROL) },
    ).must(Action::Write { path: owned("/var/unbound/lan-zones.conf"), text: owned("") });
    let content: Option<&str> = match upstream {
        Some(Err(error)) => {
            if config.dns_override.len() == 0 {
                return written.fail(owned(error.message.as_str()));
            }
            None
        },
        Some(Ok(content)) => Some(content.as_str()),
        None => None,
    };
    written.must(
        Action::Write {
            path: owned("/var/unbound/forward.conf"),
            text: nameservice::upstream_forward_config(config, content),
        },
    ).must(
        Action::Write { path: owned("/etc/resolvconf.conf"), text: owned(RESOLVCONF) },
    ).run(command("chown").arg("-R").arg("unbound:unbound").arg("/var/unbound")).run(
        command("service").arg("local_unbound").arg("restart"),
    ).run(command("resolvconf").arg("-u"))
}

/// Plans the configuration of the resolver of the host. `bridge6` and `network6` are what
/// reading the addresses of `bridge6_text` and `network6_text` gave.
pub fn configure_host_unbound(
    config: &Config,
    host: &Result<String, Error>,
    bridge6: &Result<Ipv6Address, Error>,
    network6: &Result<Ipv6Address, Error>,
    files: &Snapshot,
    upstream: &Option<Result<String, Error>>,
) -> (result: Result<Plan, Error>)
    ensures
        match (
            resolver_spec(
                *config,
                error::text_outcome(*host),
                address::ipv6_result(*bridge6),
                address::ipv6_result(*network6),
            ),
            result,
        ) {
            (Ok(model), Ok(plan)) => plan@ == unbound_plan(
                model,
                *config,
                snapshot::exists_at(*files, "/var/unbound/root.hints"@),
                upstream_view(*upstream),
            ),
            (Err(reason), Err(error)) => error@ == reason,
            _ => false,
        },
{
    let name = match domain(config, host) {
        Ok(name) => name,
        Err(error) => {
            return Err(error);
        },
    };
    let bridge = match parse_ipv4(config.bridge_ip.as_str()) {
        Ok(bridge) => bridge,
        Err(error) => {
            return Err(error);
        },
    };
    let network = match parse_ipv4(config.network_ip.as_str()) {
        Ok(network) => network,
        Err(error) => {
            return Err(error);
        },
    };
    let outside = match bridge6 {
        Ok(address) => address,
        Err(error) => {
            return Err(Error::new(owned(error.message.as_str())));
        },
    };
    let inside = match network6 {
        Ok(address) => address,
        Err(error) => {
            return Err(Error::new(owned(error.message.as_str())));
        },
    };
    Ok(
        write_unbound(
            name.as_str(),
            &bridge,
            &network,
            outside,
            inside,
            config,
            files.present("/var/unbound/root.hints"),
            upstream,
        ),
    )
}

// ---------------------------------------------------------------------------
// Projects
// ---------------------------------------------------------------------------

/// The directory of the source trees; an empty one if none is configured.
pub open spec fn projects_spec(config: Config) -> Seq<char> {
    match config.projects_dir {
        Some(directory) => directory@,
        None => "/var/empty"@,
    }
}

/// How the directory of the source trees is exported to the managed network, a line for
/// each address family in use.
pub open spec fn export_lines(config: Config, bridge: Seq<u8>) -> Seq<Seq<char>> {
    nameservice::by_family(
        config,
        projects_spec(config) + " -network="@ + address::network_text_spec(bridge) + ".0/24"@,
        projects_spec(config) + " -network="@ + nameservice::without_colons(config.ipv6_prefix@)
            + "::/64"@,
    )
}

/// How lines are added to the exports that lack them.
pub open spec fn added_lines(exports: Seq<char>, wanted: Seq<Seq<char>>) -> PlanModel
    decreases wanted.len(),
{
    if wanted.len() == 0 {
        plan::no_steps().run(plan::line("sysrc"@).arg("nfs_server_enable=YES"@))
    } else {
        let earlier = added_lines(exports, wanted.drop_last());
        if text::lines_spec(exports).contains(wanted.last()) {
            earlier
        } else {
            earlier.must(
                Act::Append { path: "/etc/exports"@, text: wanted.last() + "\n"@, create: true },
            )
        }
    }
}

/// What comes of exporting the directory of the source trees: the NFS server is enabled,
/// the exports are completed, and the server takes them up.
pub open spec fn export_spec(config: Config, exports: Seq<char>) -> Result<PlanModel, Seq<char>> {
    match address::ipv4_spec(config.bridge_ip@) {
        None => Err(address::IPV4_SYNTAX@),
        Some(bridge) => Ok(
            added_lines(exports, export_lines(config, bridge)).run(
                plan::line("service"@).arg("nfsd"@).arg("restart"@),
            ).run(plan::line("service"@).arg("mountd"@).arg("onereload"@)),
        ),
    }
}

/// Plans to export the directory of the source trees to the managed network. `exports` is
/// what the file of the exports holds.
pub fn export_projects(config: &Config, exports: &str) -> (result: Result<Plan, Error>)
    ensures
        jail::plan_result(result) == export_spec(*config, exports@),
{
    let bridge = match parse_ipv4(config.bridge_ip.as_str()) {
        Ok(bridge) => bridge,
        Err(error) => {
            return Err(error);
        },
    };
    let directory = match &config.projects_dir {
        Some(directory) => owned(directory.as_str()),
        None => owned("/var/empty"),
    };
    let wanted = nameservice::family_list(
        config,
        owned(directory.as_str()).concat(" -network=").concat(
            network_text(&bridge).as_str(),
        ).concat(".0/24"),
        owned(directory.as_str()).concat(" -network=").concat(
            nameservice::trim_colons(config.ipv6_prefix.as_str()).as_str(),
        ).concat("::/64"),
    );
    let ghost model = text::views(wanted@);
    let mut plan = Plan::new().run(command("sysrc").arg("nfs_server_enable=YES"));
    let mut index: usize = 0;
    while index < wanted.len()
        invariant
            index <= wanted@.len(),
            model == text::views(wanted@),
            plan@ == added_lines(exports@, model.take(index as int)),
        decreases wanted@.len() - index,
    {
        proof {
            assert(model.take(index + 1).drop_last() =~= model.take(index as int));
            assert(model.take(index + 1).last() == wanted@[index as int]@);
        }
        if !contains_line(exports, wanted[index].as_str()) {
            plan = plan.must(
                Action::Append {
                    path: owned("/etc/exports"),
                    text: owned(wanted[index].as_str()).concat("\n"),
                    create: true,
                },
            );
        }
        index += 1;
    }
    proof {
        assert(model.take(index as int) =~= model);
    }
    Ok(
        plan.run(command("service").arg("nfsd").arg("restart")).run(
            command("service").arg("mountd").arg("onereload"),
        ),
    )
}

// ---------------------------------------------------------------------------
// Laws
// ---------------------------------------------------------------------------

/// A path in the jail that serves the network, as the host sees it.
pub open spec fn inside(path: Seq<char>) -> Seq<char> {
    "/var/priosun/jail/network/"@ + path
}

proof fn lemma_network_root()
    ensures
        network_root() == "/var/priosun/jail/network"@,
{
    reveal_strlit("/var/priosun/jail");
    reveal_strlit("network");
    reveal_strlit("/var/priosun/jail/network");
    assert("/var/priosun/jail"@.push('/') + "network"@ =~= "/var/priosun/jail/network"@);
}

proof fn lemma_inside(path: Seq<char>)
    requires
        path.len() > 0,
        path[0] != '/',
    ensures
        network_file(path) == inside(path),
        network_root() == "/var/priosun/jail/network"@,
{
    lemma_network_root();
    reveal_strlit("/var/priosun/jail/network");
    reveal_strlit("/var/priosun/jail/network/");
    assert("/var/priosun/jail/network"@.push('/') =~= "/var/priosun/jail/network/"@);
}

/// Whoever gets an address by DHCPv4 is led to the bridge: what the DHCP server is told names
/// the address of the bridge as the router and as the name server, and gives away addresses of
/// the network of 256 that the bridge lies in. The network jail itself has that very address as
/// its router, and it is the one that the bridge of the host is given.
#[verifier::spinoff_prover]
#[verifier::rlimit(40)]
pub proof fn law_leases_lead_to_the_bridge(
    config: Config,
    host: Result<Seq<char>, Seq<char>>,
    network6: Result<Ipv6Model, Seq<char>>,
    services: ServicesModel,
    key: Seq<char>,
    bridge: Seq<u8>,
)
    requires
        services_spec(config, host, network6) == Ok::<ServicesModel, Seq<char>>(services),
        address::ipv4_spec(config.bridge_ip@) == Some(bridge),
    ensures
        ({
            let plan = services_plan(services, config, key);
            let file = inside("usr/local/etc/kea/kea-dhcp4.conf"@);
            let network = address::network_text_spec(bridge);
            let router = address::ipv4_text_spec(bridge);
            &&& plan.writes(file, "{ \"name\": \"routers\", \"data\": \""@ + router + "\" }"@)
            &&& plan.writes(
                file,
                "{ \"name\": \"domain-name-servers\", \"data\": \""@ + router + "\" }"@,
            )
            &&& plan.writes(file, "\"subnet\": \""@ + network + ".0/24"@)
            &&& plan.writes(
                file,
                "\"pool\": \""@ + (network + ".100-"@ + network) + ".200\" }]"@,
            )
            &&& plan.writes(
                file,
                "\"ddns-qualifying-suffix\": \""@ + services.domain + "\""@,
            )
            &&& address::ipv4_spec(router) == Some(bridge)
            &&& address::ipv4_spec(network + ".100"@) == Some(bridge.update(3, 100))
            &&& address::ipv4_spec(network + ".200"@) == Some(bridge.update(3, 200))
            &&& config.use_ipv4 ==> network_settings(config) is Ok && network_settings(
                config,
            )->Ok_0.names("defaultrouter="@ + router)
            &&& config.use_ipv4 ==> host_settings(config).names(
                "ifconfig_"@ + config.bridge@ + "=inet "@ + config.bridge_ip@
                    + " netmask 255.255.255.0"@ + members_spec(text::views(config.bridge_members@)),
            )
        }),
{
    broadcast use plan::group_plan_contents;

    reveal_strlit("usr/local/etc/kea/kea-dhcp4.conf");
    lemma_inside("usr/local/etc/kea/kea-dhcp4.conf"@);
    nameservice::law_leases_lead_to_the_bridge(services.domain, services.hostname, bridge);
    address::law_ipv4_text_reads_back(bridge);
    address::law_network_holds_its_addresses(bridge, 100);
    address::law_network_holds_its_addresses(bridge, 200);
    reveal_strlit(".");
    reveal_strlit(".100");
    reveal_strlit(".200");
    reveal_with_fuel(text::decimal_spec, 4);
    let network = address::network_text_spec(bridge);
    assert(text::decimal_spec(100) =~= seq!['1', '0', '0']);
    assert(text::decimal_spec(200) =~= seq!['2', '0', '0']);
    assert(network + "."@ + text::decimal_spec(100) =~= network + ".100"@);
    assert(network + "."@ + text::decimal_spec(200) =~= network + ".200"@);
}

/// Whoever gets an address by DHCPv6 has one of the network of the prefix and the bridge as its
/// name server; the network jail has the bridge as its router, and the bridge of the host is
/// given that very address.
#[verifier::spinoff_prover]
#[verifier::rlimit(40)]
pub proof fn law_leases6_lead_to_the_bridge(
    config: Config,
    services: ServicesModel,
    key: Seq<char>,
)
    ensures
        ({
            let plan = services_plan(services, config, key);
            let file = inside("usr/local/etc/kea/kea-dhcp6.conf"@);
            let prefix = nameservice::without_colons(config.ipv6_prefix@);
            let bridge = config.ipv6_prefix@ + config.bridge_ip6@;
            &&& plan.writes(
                file,
                "{ \"name\": \"dns-servers\", \"data\": \""@ + bridge + "\" }]"@,
            )
            &&& plan.writes(file, "\"subnet\": \""@ + prefix + "/64\""@)
            &&& plan.writes(
                file,
                "\"pool\": \""@ + (prefix + ":100-"@ + prefix) + ":ffff\" }]"@,
            )
            &&& network_settings(config) is Ok && config.use_ipv6 ==> network_settings(
                config,
            )->Ok_0.names("ipv6_defaultrouter="@ + bridge)
            &&& config.use_ipv6 ==> host_settings(config).names(
                "ifconfig_"@ + config.bridge@ + "_ipv6=inet6 -ifdisabled auto_linklocal "@ + bridge,
            )
        }),
{
    broadcast use plan::group_plan_contents;

    reveal_strlit("usr/local/etc/kea/kea-dhcp6.conf");
    lemma_inside("usr/local/etc/kea/kea-dhcp6.conf"@);
    nameservice::law_leases6_lead_to_the_bridge(services.domain, config);
    let bridge = config.ipv6_prefix@ + config.bridge_ip6@;
    let start = "ifconfig_"@ + config.bridge@ + "_ipv6=inet6 -ifdisabled auto_linklocal "@;
    assert(start + config.ipv6_prefix@ + config.bridge_ip6@ =~= start + bridge);
    assert("ipv6_defaultrouter="@ + config.ipv6_prefix@ + config.bridge_ip6@
        =~= "ipv6_defaultrouter="@ + bridge);
}

/// The interface of the network jail has the address of the network jail, in each address
/// family in use, and none in a family that is not. Setting it fails exactly where IPv4 is in
/// use and one of the two addresses is none.
pub proof fn law_network_jail_has_its_addresses(config: Config)
    ensures
        ({
            let result = network_settings(config);
            let line = result->Ok_0;
            &&& result is Ok <==> !config.use_ipv4 || (address::ipv4_spec(config.network_ip@) is Some
                && address::ipv4_spec(config.bridge_ip@) is Some)
            &&& result is Ok ==> line.program == "sysrc"@ && line.args.len() == (if config.use_ipv4 {
                4int
            } else {
                3
            }) + (if config.use_ipv6 {
                2int
            } else {
                1
            })
            &&& result is Ok ==> line.has("-R"@, "/var/priosun/jail/network"@)
            &&& result is Ok && config.use_ipv4 ==> line.names(
                "ifconfig_eth0=inet "@ + address::ipv4_text_spec(
                    address::ipv4_spec(config.network_ip@)->Some_0,
                ) + " netmask 255.255.255.0"@,
            )
            &&& result is Ok && !config.use_ipv4 ==> line.names("ifconfig_eth0=NONE"@)
            &&& result is Ok && config.use_ipv6 ==> line.names(
                "ifconfig_eth0_ipv6=inet6 "@ + (config.ipv6_prefix@ + config.network_ip6@) + "/64"@,
            )
            &&& result is Ok && !config.use_ipv6 ==> line.names("ifconfig_eth0_ipv6=NONE"@)
        }),
{
    broadcast use plan::group_plan_contents;

    lemma_network_root();
    assert("ifconfig_eth0_ipv6=inet6 "@ + config.ipv6_prefix@ + config.network_ip6@ + "/64"@
        =~= "ifconfig_eth0_ipv6=inet6 "@ + (config.ipv6_prefix@ + config.network_ip6@) + "/64"@);
}

/// The bridge of the host is made under the name that the configuration gives it and has an
/// address in exactly the families in use; every member that is configured is added to it.
pub proof fn law_bridge_is_set_up(config: Config, i: int)
    requires
        0 <= i < config.bridge_members@.len(),
    ensures
        ({
            let line = host_settings(config);
            &&& line.program == "sysrc"@
            &&& line.names("cloned_interfaces+=bridge0"@)
            &&& line.names("ifconfig_bridge0_name="@ + config.bridge@)
            &&& line.args.len() == 2 + (if config.use_ipv4 {
                1int
            } else {
                0
            }) + (if config.use_ipv6 {
                1int
            } else {
                0
            })
            &&& text::contains_spec(
                members_spec(text::views(config.bridge_members@)),
                " addm "@ + config.bridge_members@[i]@,
            )
            &&& host_plan(config).steps.len() == 2 && host_plan(config).steps[0] == plan::must(
                Act::Run(line),
            )
            &&& plan::is_call(
                host_plan(config).steps[1].action,
                "service"@,
                seq!["netif"@, "cloneup"@],
            )
        }),
{
    broadcast use plan::group_plan_contents;

    lemma_members(text::views(config.bridge_members@), i);
}

proof fn lemma_members(members: Seq<Seq<char>>, i: int)
    requires
        0 <= i < members.len(),
    ensures
        text::contains_spec(members_spec(members), " addm "@ + members[i]),
    decreases members.len(),
{
    broadcast use text::group_texts_within;

    let front = members_spec(members.drop_last());
    assert(members_spec(members) =~= front + (" addm "@ + members.last()));
    if i < members.len() - 1 {
        lemma_members(members.drop_last(), i);
    }
}

/// The key of the name updates reaches Kea and Knot alike, each in the file that its
/// configuration refers to, which only its owner may read.
#[verifier::spinoff_prover]
#[verifier::rlimit(40)]
pub proof fn law_key_reaches_both_servers(
    services: ServicesModel,
    config: Config,
    key: Seq<char>,
)
    ensures
        ({
            let plan = services_plan(services, config, key);
            let kea = inside("usr/local/etc/kea/ddns.key"@);
            let knot = inside("usr/local/etc/knot/ddns-key.conf"@);
            &&& plan.performs(Act::Write { path: kea, text: key + "\n"@ })
            &&& plan.performs(Act::SetMode { path: kea, mode: 0o600 })
            &&& plan.writes(
                knot,
                "  - id: ddns\n    algorithm: hmac-sha256\n    secret: \""@ + key + "\"\n"@,
            )
            &&& plan.performs(Act::SetMode { path: knot, mode: 0o600 })
            &&& plan.writes(
                inside("usr/local/etc/kea/kea-dhcp-ddns.conf"@),
                "\"secret-file\": \"/usr/local/etc/kea/ddns.key\""@,
            )
            &&& plan.writes(
                inside("usr/local/etc/knot/knot.conf"@),
                "include: /usr/local/etc/knot/ddns-key.conf\n"@,
            )
        }),
{
    broadcast use plan::group_plan_contents;

    reveal_strlit("usr/local/etc/kea/ddns.key");
    reveal_strlit("usr/local/etc/knot/ddns-key.conf");
    reveal_strlit("usr/local/etc/kea/kea-dhcp-ddns.conf");
    reveal_strlit("usr/local/etc/knot/knot.conf");
    lemma_inside("usr/local/etc/kea/ddns.key"@);
    lemma_inside("usr/local/etc/knot/ddns-key.conf"@);
    lemma_inside("usr/local/etc/kea/kea-dhcp-ddns.conf"@);
    lemma_inside("usr/local/etc/knot/knot.conf"@);
    nameservice::law_key_is_shared(key);
    let zone4 = address::ipv4_zone_spec(services.network);
    let zone6 = address::ipv6_zone_spec(services.network6);
    nameservice::law_updates_go_to_the_zones(services.domain, zone4, zone6, config);
    nameservice::law_knot_serves_the_zones(
        services.domain,
        zone4,
        zone6,
        services.network,
        config,
    );
}

/// The names of the domain and the reverse names of each address family in use are kept in one
/// place: the zone that Kea updates is a zone that Knot serves, and a file that begins with the
/// name of the zone is written where Knot looks for it. In the zone of the domain, the domain
/// is the bridge and `network` is the network jail.
#[verifier::spinoff_prover]
#[verifier::rlimit(40)]
pub proof fn law_zones_are_served_and_updated(
    config: Config,
    host: Result<Seq<char>, Seq<char>>,
    network6: Result<Ipv6Model, Seq<char>>,
    services: ServicesModel,
    key: Seq<char>,
    bridge: Seq<u8>,
    network: Seq<u8>,
    six: Ipv6Model,
)
    requires
        services_spec(config, host, network6) == Ok::<ServicesModel, Seq<char>>(services),
        address::ipv4_spec(config.bridge_ip@) == Some(bridge),
        address::ipv4_spec(config.network_ip@) == Some(network),
        network6 == Ok::<Ipv6Model, Seq<char>>(six),
    ensures
        ({
            let plan = services_plan(services, config, key);
            let ddns = inside("usr/local/etc/kea/kea-dhcp-ddns.conf"@);
            let knot = inside("usr/local/etc/knot/knot.conf"@);
            let domain = services.domain;
            let zone4 = address::ipv4_zone_spec(network);
            let zone6 = address::ipv6_zone_spec(six.segments);
            &&& plan.writes(
                ddns,
                "\"forward-ddns\": { \"ddns-domains\": [{ \"name\": \""@ + domain
                    + ".\", \"key-name\": \"ddns\", \"dns-servers\": [{ \"ip-address\": \"127.0.0.1\" }] }] }"@,
            )
            &&& plan.writes(knot, nameservice::served_zone(domain))
            &&& plan.writes(zone_file(domain), "$ORIGIN "@ + domain + ".\n"@)
            &&& config.use_ipv4 ==> {
                &&& plan.writes(
                    ddns,
                    "\"reverse-ddns\": { \"ddns-domains\": [{ \"name\": \""@ + zone4
                        + ".\", \"key-name\": \"ddns\", \"dns-servers\": [{ \"ip-address\": \"127.0.0.1\" }] }"@,
                )
                &&& plan.writes(knot, nameservice::served_zone(zone4))
                &&& plan.writes(zone_file(zone4), "$ORIGIN "@ + zone4 + ".\n"@)
                &&& plan.writes(
                    knot,
                    "listen: [ 127.0.0.1@53, "@ + address::ipv4_text_spec(network) + "@53"@,
                )
                &&& plan.writes(
                    zone_file(domain),
                    "\n@ A "@ + address::ipv4_text_spec(bridge) + "\n"@,
                )
                &&& plan.writes(
                    zone_file(domain),
                    "\nnetwork A "@ + address::ipv4_text_spec(network) + "\n"@,
                )
            }
            &&& config.use_ipv6 ==> {
                &&& plan.writes(
                    ddns,
                    "{ \"name\": \""@ + zone6
                        + ".\", \"key-name\": \"ddns\", \"dns-servers\": [{ \"ip-address\": \"::1\" }] }] }"@,
                )
                &&& plan.writes(knot, nameservice::served_zone(zone6))
                &&& plan.writes(zone_file(zone6), "$ORIGIN "@ + zone6 + ".\n"@)
                &&& plan.writes(
                    knot,
                    ", "@ + (config.ipv6_prefix@ + config.network_ip6@) + "@53 ]\n"@,
                )
                &&& plan.writes(
                    zone_file(domain),
                    "\n@ AAAA "@ + (config.ipv6_prefix@ + config.bridge_ip6@) + "\n"@,
                )
                &&& plan.writes(
                    zone_file(domain),
                    "\nnetwork AAAA "@ + (config.ipv6_prefix@ + config.network_ip6@) + "\n"@,
                )
            }
        }),
{
    broadcast use plan::group_plan_contents;

    reveal_strlit("usr/local/etc/kea/kea-dhcp-ddns.conf");
    reveal_strlit("usr/local/etc/knot/knot.conf");
    lemma_inside("usr/local/etc/kea/kea-dhcp-ddns.conf"@);
    lemma_inside("usr/local/etc/knot/knot.conf"@);
    let domain = services.domain;
    let zone4 = address::ipv4_zone_spec(network);
    let zone6 = address::ipv6_zone_spec(six.segments);
    nameservice::law_updates_go_to_the_zones(domain, zone4, zone6, config);
    nameservice::law_knot_serves_the_zones(domain, zone4, zone6, network, config);
    nameservice::law_zone_names_the_bridge_and_the_jail(domain, bridge, network, config);
    nameservice::law_zone_begins_with_its_name(domain, domain);
    nameservice::law_zone_begins_with_its_name(zone4, domain);
    nameservice::law_zone_begins_with_its_name(zone6, domain);
    lemma_begins(
        nameservice::zone_head(domain, domain),
        nameservice::zone_spec(domain, bridge, network, config),
        "$ORIGIN "@ + domain + ".\n"@,
    );
    lemma_begins(
        nameservice::zone_head(zone4, domain),
        nameservice::zone_head(zone4, domain),
        "$ORIGIN "@ + zone4 + ".\n"@,
    );
    lemma_begins(
        nameservice::zone_head(zone6, domain),
        nameservice::zone_head(zone6, domain),
        "$ORIGIN "@ + zone6 + ".\n"@,
    );
}

proof fn lemma_begins(head: Seq<char>, whole: Seq<char>, start: Seq<char>)
    requires
        text::starts_with_spec(head, start),
        head.len() <= whole.len(),
        whole.take(head.len() as int) =~= head,
    ensures
        text::contains_spec(whole, start),
{
    assert(whole.skip(0).take(start.len() as int) =~= head.take(start.len() as int));
    assert(text::starts_with_spec(whole.skip(0), start));
}

/// The services of the network are told the domain that is configured or else the name of the
/// host, and the addresses that the configuration gives: nothing else decides.
pub proof fn law_services_are_told_the_configuration(
    config: Config,
    host: Seq<char>,
    six: Ipv6Model,
    bridge: Seq<u8>,
    network: Seq<u8>,
)
    requires
        address::ipv4_spec(config.bridge_ip@) == Some(bridge),
        address::ipv4_spec(config.network_ip@) == Some(network),
    ensures
        ({
            let result = services_spec(config, Ok(host), Ok(six));
            let services = result->Ok_0;
            &&& result is Ok
            &&& services.bridge == bridge
            &&& services.network == network
            &&& services.network6 == six.segments
            &&& services.hostname == host
            &&& services.domain == if text::trim_spec(config.domain@).len() > 0 {
                text::trim_spec(config.domain@)
            } else {
                host
            }
        }),
{
}

/// Both DHCP servers run the script that forgets the names of a lease, and the script is
/// written where they look for it, so that only its owner may run it.
#[verifier::spinoff_prover]
#[verifier::rlimit(40)]
pub proof fn law_flush_script_is_installed(
    services: ServicesModel,
    config: Config,
    key: Seq<char>,
)
    ensures
        ({
            let plan = services_plan(services, config, key);
            let script = inside("usr/local/share/kea/scripts/priosun-unbound-flush"@);
            let named = "\"name\": \"/usr/local/share/kea/scripts/priosun-unbound-flush\""@;
            &&& plan.writes(inside("usr/local/etc/kea/kea-dhcp4.conf"@), named)
            &&& plan.writes(inside("usr/local/etc/kea/kea-dhcp6.conf"@), named)
            &&& plan.performs(
                Act::Write { path: script, text: nameservice::flush_hook_spec(services.domain) },
            )
            &&& plan.performs(Act::SetMode { path: script, mode: 0o700 })
            &&& plan.calls(
                "sysrc"@,
                seq![
                    "-R"@,
                    "/var/priosun/jail/network"@,
                    "kea_enable=YES"@,
                    "knot_enable=YES"@,
                ],
            )
            &&& plan.writes(
                inside("usr/local/etc/kea/keactrl.conf"@),
                if config.use_ipv4 {
                    "\ndhcp4=yes\ndhcp6="@
                } else {
                    "\ndhcp4=no\ndhcp6="@
                },
            )
            &&& plan.writes(
                inside("usr/local/etc/kea/keactrl.conf"@),
                if config.use_ipv6 {
                    "\ndhcp6=yes\ndhcp_ddns=yes\n"@
                } else {
                    "\ndhcp6=no\ndhcp_ddns=yes\n"@
                },
            )
        }),
{
    broadcast use plan::group_plan_contents;

    reveal_strlit("usr/local/share/kea/scripts/priosun-unbound-flush");
    reveal_strlit("usr/local/etc/kea/kea-dhcp4.conf");
    reveal_strlit("usr/local/etc/kea/kea-dhcp6.conf");
    reveal_strlit("usr/local/etc/kea/keactrl.conf");
    lemma_inside("usr/local/share/kea/scripts/priosun-unbound-flush"@);
    lemma_inside("usr/local/etc/kea/kea-dhcp4.conf"@);
    lemma_inside("usr/local/etc/kea/kea-dhcp6.conf"@);
    lemma_inside("usr/local/etc/kea/keactrl.conf"@);
    nameservice::law_leases_flush_the_cache(
        services.domain,
        services.hostname,
        services.bridge,
        config,
    );
    nameservice::law_dhcp_serves_the_families(config);
}

/// The resolver of the host, which everyone in the network asks, listens to the bridge and asks
/// the network jail for the names of the domain and for the reverse names. The host itself
/// asks its own resolver from then on.
#[verifier::spinoff_prover]
#[verifier::rlimit(40)]
pub proof fn law_resolver_asks_the_network_jail(
    config: Config,
    host: Result<Seq<char>, Seq<char>>,
    bridge6: Ipv6Model,
    network6: Ipv6Model,
    model: ResolverModel,
    has_hints: bool,
    upstream: Option<Seq<char>>,
    bridge: Seq<u8>,
    network: Seq<u8>,
)
    requires
        resolver_spec(config, host, Ok(bridge6), Ok(network6)) == Ok::<ResolverModel, Seq<char>>(
            model,
        ),
        address::ipv4_spec(config.bridge_ip@) == Some(bridge),
        address::ipv4_spec(config.network_ip@) == Some(network),
    ensures
        ({
            let plan = unbound_plan(
                model,
                config,
                has_hints,
                match upstream {
                    Some(content) => Some(Ok(content)),
                    None => None,
                },
            );
            let server = address::ipv4_text_spec(network);
            let main = "/var/unbound/unbound.conf"@;
            let own = "/var/unbound/priosun.conf"@;
            &&& config.use_ipv4 ==> plan.writes(
                main,
                "  interface: "@ + address::ipv4_text_spec(bridge) + "\n"@,
            )
            &&& config.use_ipv6 ==> plan.writes(main, "  interface: "@ + bridge6.text + "\n"@)
            &&& plan.writes(main, "include: /var/unbound/priosun.conf\n"@)
            &&& plan.writes(main, "include: /var/unbound/forward.conf\n"@)
            &&& config.use_ipv4 ==> plan.writes(own, nameservice::looked_up(model.domain, server))
            &&& !config.use_ipv4 ==> plan.writes(
                own,
                nameservice::looked_up(model.domain, network6.text),
            )
            &&& config.use_ipv4 ==> plan.writes(
                own,
                nameservice::looked_up(address::ipv4_zone_spec(bridge), server),
            )
            &&& config.use_ipv6 ==> plan.writes(
                own,
                nameservice::looked_up(address::ipv6_zone_spec(network6.segments), network6.text),
            )
            &&& plan.performs(
                Act::Write {
                    path: "/var/unbound/forward.conf"@,
                    text: nameservice::forward_lines(
                        nameservice::upstream_servers(config, upstream),
                    ),
                },
            )
            &&& plan.writes("/etc/resolvconf.conf"@, "name_servers=127.0.0.1\n"@)
            &&& plan.calls("service"@, seq!["local_unbound"@, "restart"@])
            &&& plan.calls("resolvconf"@, seq!["-u"@])
            &&& !has_hints <==> plan.calls(
                "fetch"@,
                seq![
                    "-o"@,
                    "/var/unbound/root.hints"@,
                    "https://www.internic.net/domain/named.cache"@,
                ],
            )
        }),
{
    broadcast use plan::group_plan_contents;

    nameservice::law_resolver_listens_to_the_bridge(bridge, bridge6.text, config);
    nameservice::law_own_names_are_asked_of_the_jail(
        model.domain,
        bridge,
        network,
        network6,
        config,
    );
    reveal_strlit("name_servers=127.0.0.1\n");
    reveal_strlit(
        "name_servers=127.0.0.1\nresolv_conf_local_only=YES\nunbound_conf=\"/var/unbound/forward.conf\"\nunbound_pid=\"/var/run/local_unbound.pid\"\nunbound_service=\"local_unbound\"\nunbound_restart=\"service local_unbound reload\"\n",
    );
    assert(RESOLVCONF@.skip(0).take(23) =~= "name_servers=127.0.0.1\n"@);
    assert(text::starts_with_spec(RESOLVCONF@.skip(0), "name_servers=127.0.0.1\n"@));
    reveal_strlit("fetch");
    reveal_strlit("sysrc");
    reveal_strlit("chown");
    reveal_strlit("service");
    reveal_strlit("resolvconf");
    assert("fetch"@.len() == 5 && "sysrc"@.len() == 5 && "chown"@.len() == 5);
    assert("service"@.len() == 7 && "resolvconf"@.len() == 10);
    assert("fetch"@[0] == 'f' && "sysrc"@[0] == 's' && "chown"@[0] == 'c');
}

/// Whether a stage comes before another one.
pub open spec fn comes_before(stages: Seq<Stage>, first: Stage, second: Stage) -> bool {
    exists|i: int, j: int|
        0 <= i < j < stages.len() && #[trigger] stages[i] == first && #[trigger] stages[j] == second
}

/// The managed network is set up from the bridge on: the jail is made exactly if it is not
/// there, it gets its packages, its network and its services before it is started, and the
/// host asks it for names only once it runs.
pub proof fn law_network_is_set_up_in_order(files: Snapshot)
    ensures
        ({
            let stages = stages_spec(files);
            let made = stages.contains(Stage::CreateJail);
            &&& stages[0] == Stage::Bridge
            &&& made <==> !snapshot::is_dir_at(files, "/var/priosun/jail/network"@)
            &&& made ==> comes_before(stages, Stage::CreateJail, Stage::InstallPackages)
            &&& comes_before(stages, Stage::InstallPackages, Stage::ConfigureServices)
            &&& comes_before(stages, Stage::ConfigureNetwork, Stage::StartJail)
            &&& comes_before(stages, Stage::ConfigureServices, Stage::StartJail)
            &&& comes_before(stages, Stage::MountUnbound, Stage::StartJail)
            &&& comes_before(stages, Stage::StartJail, Stage::ConfigureUnbound)
            &&& stages.last() == Stage::ExportProjects
            &&& stages.no_duplicates()
        }),
{
    lemma_network_root();
    let stages = stages_spec(files);
    let at: int = if snapshot::is_dir_at(files, network_root()) {
        1
    } else {
        assert(stages[1] == Stage::CreateJail);
        2
    };
    assert(stages[at] == Stage::InstallPackages);
    assert(stages[at + 1] == Stage::ConfigureNetwork);
    assert(stages[at + 2] == Stage::ConfigureServices);
    assert(stages[at + 3] == Stage::MountUnbound);
    assert(stages[at + 4] == Stage::StartJail);
    assert(stages[at + 5] == Stage::ConfigureUnbound);
    assert(stages[at + 6] == Stage::ExportProjects);
}

/// The servers are installed into the network jail, and the jail is shown the files of the
/// resolver of the host, so that its scripts reach the resolver.
pub proof fn law_network_jail_gets_its_servers()
    ensures
        ({
            let root = "/var/priosun/jail/network"@;
            &&& packages_plan().calls(
                "pkg"@,
                seq!["-r"@, root, "install"@, "-y"@, "kea"@, "knot3"@],
            )
            &&& mount_plan().performs(Act::CreateDir("/var/unbound"@))
            &&& mount_plan().performs(Act::CreateDir(inside("var/unbound"@)))
            &&& mount_plan().calls(
                "mount"@,
                seq!["-t"@, "nullfs"@, "/var/unbound"@, inside("var/unbound"@)],
            )
        }),
{
    broadcast use plan::group_plan_contents;

    reveal_strlit("var/unbound");
    lemma_inside("var/unbound"@);
}

/// The name of the host is what `hostname` prints, without white space around it; there is one
/// exactly if the command succeeds and prints something. The domain is the configured one, or
/// else the name of the host.
pub proof fn law_domain_is_configured_or_the_host(
    config: Config,
    succeeded: bool,
    printed: Seq<char>,
)
    ensures
        ({
            let host = hostname_spec(succeeded, printed);
            let own = text::trim_spec(config.domain@);
            &&& host is Ok <==> succeeded && text::trim_spec(printed).len() > 0
            &&& host matches Ok(name) ==> name == text::trim_spec(printed)
            &&& own.len() > 0 ==> domain_spec(config, host) == Ok::<Seq<char>, Seq<char>>(own)
            &&& own.len() == 0 ==> domain_spec(config, host) == host
        }),
{
}

/// The key of the name updates is made of 32 random bytes.
pub proof fn law_key_is_random()
    ensures
        plan::is_call(
            Act::Run(key_command_spec()),
            "openssl"@,
            seq!["rand"@, "-base64"@, "32"@],
        ),
{
}

proof fn lemma_added_lines(exports: Seq<char>, wanted: Seq<Seq<char>>, i: int)
    requires
        0 <= i < wanted.len(),
    ensures
        text::lines_spec(exports).contains(wanted[i]) || added_lines(exports, wanted).performs(
            Act::Append { path: "/etc/exports"@, text: wanted[i] + "\n"@, create: true },
        ),
        added_lines(exports, wanted).calls("sysrc"@, seq!["nfs_server_enable=YES"@]),
    decreases wanted.len(),
{
    broadcast use plan::group_plan_contents;

    let front = wanted.drop_last();
    if i < front.len() {
        assert(front[i] == wanted[i]);
        lemma_added_lines(exports, front, i);
    } else if front.len() > 0 {
        lemma_added_lines(exports, front, 0);
    } else {
        assert(added_lines(exports, front).calls("sysrc"@, seq!["nfs_server_enable=YES"@]));
    }
}

proof fn lemma_only_missing_lines(exports: Seq<char>, wanted: Seq<Seq<char>>, text: Seq<char>)
    ensures
        added_lines(exports, wanted).performs(
            Act::Append { path: "/etc/exports"@, text, create: true },
        ) ==> exists|i: int|
            0 <= i < wanted.len() && text == #[trigger] wanted[i] + "\n"@ && !text::lines_spec(
                exports,
            ).contains(wanted[i]),
    decreases wanted.len(),
{
    broadcast use plan::group_plan_contents;

    if wanted.len() > 0 {
        let front = wanted.drop_last();
        lemma_only_missing_lines(exports, front, text);
        let action = Act::Append { path: "/etc/exports"@, text, create: true };
        if added_lines(exports, front).performs(action) {
            let i = choose|i: int|
                0 <= i < front.len() && text == #[trigger] front[i] + "\n"@ && !text::lines_spec(
                    exports,
                ).contains(front[i]);
            assert(wanted[i] == front[i]);
        } else if added_lines(exports, wanted).performs(action) {
            assert(text == wanted[wanted.len() - 1] + "\n"@);
        }
    }
}

/// The source trees are exported to the network of the bridge and of the prefix, in the
/// address families in use: after that a line for each is among the exports, and a line that
/// was there is not added again. The servers take the exports up. Without a bridge address
/// nothing is exported.
pub proof fn law_projects_are_exported(
    config: Config,
    exports: Seq<char>,
    bridge: Seq<u8>,
    text: Seq<char>,
)
    requires
        address::ipv4_spec(config.bridge_ip@) == Some(bridge),
        config.use_ipv4 || config.use_ipv6,
    ensures
        ({
            let result = export_spec(config, exports);
            let plan = result->Ok_0;
            let directory = match config.projects_dir {
                Some(directory) => directory@,
                None => "/var/empty"@,
            };
            let first = directory + " -network="@ + address::network_text_spec(bridge) + ".0/24"@;
            let second = directory + " -network="@ + nameservice::without_colons(config.ipv6_prefix@)
                + "::/64"@;
            let lines = text::lines_spec(exports);
            &&& result is Ok
            &&& config.use_ipv4 && !lines.contains(first) ==> plan.performs(
                Act::Append { path: "/etc/exports"@, text: first + "\n"@, create: true },
            )
            &&& config.use_ipv6 && !lines.contains(second) ==> plan.performs(
                Act::Append { path: "/etc/exports"@, text: second + "\n"@, create: true },
            )
            &&& plan.performs(Act::Append { path: "/etc/exports"@, text, create: true }) ==> (
            text == first + "\n"@ && config.use_ipv4 && !lines.contains(first)) || (text == second
                + "\n"@ && config.use_ipv6 && !lines.contains(second))
            &&& plan.calls("sysrc"@, seq!["nfs_server_enable=YES"@])
            &&& plan.calls("service"@, seq!["nfsd"@, "restart"@])
            &&& plan.calls("service"@, seq!["mountd"@, "onereload"@])
        }),
{
    broadcast use plan::group_plan_contents;

    let wanted = export_lines(config, bridge);
    let first = projects_spec(config) + " -network="@ + address::network_text_spec(bridge)
        + ".0/24"@;
    let second = projects_spec(config) + " -network="@ + nameservice::without_colons(
        config.ipv6_prefix@,
    ) + "::/64"@;
    nameservice::law_families_are_listed(config, first, second);
    assert(wanted.len() > 0);
    lemma_added_lines(exports, wanted, 0);
    if config.use_ipv4 && config.use_ipv6 {
        lemma_added_lines(exports, wanted, 1);
    }
    lemma_only_missing_lines(exports, wanted, text);
}

/// The resolver of the host is switched on for good, owns its directory, and has the
/// directories and files that it reads; a network without either family is not set up.
#[verifier::spinoff_prover]
#[verifier::rlimit(40)]
pub proof fn law_resolver_is_switched_on(
    model: ResolverModel,
    config: Config,
    has_hints: bool,
    upstream: Option<Result<Seq<char>, Seq<char>>>,
    files: Snapshot,
)
    ensures
        ({
            let plan = unbound_plan(model, config, has_hints, upstream);
            let readable = !(upstream matches Some(Err(_)) && config.dns_override@.len() == 0);
            &&& plan.performs(Act::CreateDir("/var/unbound/conf.d"@))
            &&& plan.performs(Act::CreateDir("/var/unbound/zones"@))
            &&& plan.calls(
                "sysrc"@,
                seq!["local_unbound_enable=YES"@, "local_unbound_tls=NO"@, "local_unbound_svcj=YES"@],
            )
            &&& plan.performs(Act::Write { path: "/var/unbound/control.conf"@, text: CONTROL@ })
            &&& plan.performs(Act::Write { path: "/var/unbound/lan-zones.conf"@, text: ""@ })
            &&& readable ==> plan.calls("chown"@, seq!["-R"@, "unbound:unbound"@, "/var/unbound"@])
            &&& !readable ==> plan.steps.last().action == Act::Fail(upstream->Some_0->Err_0)
            &&& forall|i: int| 0 <= i < plan.steps.len() ==> !(#[trigger] plan.steps[i]).optional
        }),
        init_spec(config, files) is Ok <==> config.use_ipv4 || config.use_ipv6,
        init_spec(config, files) matches Ok(stages) ==> stages == stages_spec(files),
{
    broadcast use plan::group_plan_contents;

}

/// The network jail is given its addresses if those of the configuration can be read, and
/// an address that cannot be read is named in the refusal.
pub proof fn law_bad_addresses_are_named(config: Config)
    ensures
        network_settings(config) is Ok <==> !config.use_ipv4 || (address::ipv4_spec(
            config.network_ip@,
        ) is Some && address::ipv4_spec(config.bridge_ip@) is Some),
        network_settings(config) matches Err(reason) ==> {
            ||| address::ipv4_spec(config.network_ip@) is None && text::contains_spec(
                reason,
                config.network_ip@,
            )
            ||| address::ipv4_spec(config.bridge_ip@) is None && text::contains_spec(
                reason,
                config.bridge_ip@,
            )
        },
{
    broadcast use text::group_texts_within;

}

} // verus!
