//! The name services of the managed network: the files that configure Kea, Knot and
//! Unbound.

use vstd::prelude::*;

use crate::address;
use crate::address::{ipv4_text, network_text, Ipv6Address, Ipv6Model};
use crate::config::Config;
use crate::text;
use crate::text::{characters, join, lines, owned, replace, same, slice_text, starts_with, trim};

verus! {

// ---------------------------------------------------------------------------
// Kea
// ---------------------------------------------------------------------------

/// The Kea hook that flushes cached names.
pub const HOOKS: &'static str = r#"
    "hooks-libraries": [{
      "library": "/usr/local/lib/kea/hooks/libdhcp_run_script.so",
      "parameters": {
        "name": "/usr/local/share/kea/scripts/priosun-unbound-flush",
        "sync": false
      }
    }],"#;

/// The beginning of the Kea DHCPv4 configuration.
pub const DHCP4_OPEN: &'static str = r#"{
    "Dhcp4": {
    "interfaces-config": { "interfaces": [ "eth0" ] },
    "#;

/// What the DHCPv4 configuration says up to the domain.
pub const DHCP4_LEASES: &'static str = r#"
    "match-client-id": false,
    "lease-database": { "type": "memfile", "persist": true },
    "valid-lifetime": 3600,
    "ddns-send-updates": true,
    "ddns-update-on-renew": true,
    "ddns-override-no-update": true,
    "ddns-override-client-update": true,
    "ddns-qualifying-suffix": ""#;

/// What the DHCPv4 configuration says between domain and subnet.
pub const DHCP4_SUBNET: &'static str = r#"",
    "dhcp-ddns": { "enable-updates": true },
    "subnet4": [{
      "id": 1,
      "subnet": ""#;

/// What the DHCPv4 configuration says between subnet and pool.
pub const DHCP4_POOL: &'static str = r#"",
      "pools": [{ "pool": ""#;

/// What the DHCPv4 configuration says between pool and router.
pub const DHCP4_ROUTERS: &'static str = r#"" }],
      "option-data": [
        { "name": "routers", "data": ""#;

/// What the DHCPv4 configuration says between router and name server.
pub const DHCP4_SERVERS: &'static str = r#"" },
        { "name": "domain-name-servers", "data": ""#;

/// What the DHCPv4 configuration says between name server and host name.
pub const DHCP4_NAME: &'static str = r#"" },
        { "name": "domain-name", "data": ""#;

/// The end of the Kea DHCPv4 configuration.
pub const DHCP4_CLOSE: &'static str = r#"" }
      ]
    }],
    "loggers": [{
      "name": "kea-dhcp4",
      "output-options": [{
        "output": "kea-dhcp4.log",
        "flush": true
      }],
      "severity": "INFO"
    }]
  }
}
"#;

/// The beginning of the Kea DHCPv6 configuration.
pub const DHCP6_OPEN: &'static str = r#"{
    "Dhcp6": {
    "interfaces-config": { "interfaces": [ "eth0" ] },
    "#;

/// What the DHCPv6 configuration says up to the domain.
pub const DHCP6_LEASES: &'static str = r#"
    "lease-database": { "type": "memfile", "persist": true },
    "valid-lifetime": 3600,
    "ddns-send-updates": true,
    "ddns-update-on-renew": true,
    "ddns-override-no-update": true,
    "ddns-override-client-update": true,
    "ddns-qualifying-suffix": ""#;

/// What the DHCPv6 configuration says between domain and subnet.
pub const DHCP6_SUBNET: &'static str = r#"",
    "dhcp-ddns": { "enable-updates": true },
    "subnet6": [{
      "id": 1,
      "subnet": ""#;

/// What the DHCPv6 configuration says between subnet and pool.
pub const DHCP6_POOL: &'static str = r#"/64",
      "pools": [{ "pool": ""#;

/// What the DHCPv6 configuration says between pool and name server.
pub const DHCP6_SERVERS: &'static str = r#":ffff" }],
      "option-data": [{ "name": "dns-servers", "data": ""#;

/// The end of the Kea DHCPv6 configuration.
pub const DHCP6_CLOSE: &'static str = r#"" }]
    }],
    "loggers": [{
      "name": "kea-dhcp6",
      "output-options": [{
        "output": "kea-dhcp6.log",
        "flush": true
      }],
      "severity": "INFO"
    }]
  }
}
"#;

/// The beginning of the configuration of Kea's name updates.
pub const DDNS_OPEN: &'static str = r#"{
  "DhcpDdns": {
    "control-socket": { "socket-type": "unix", "socket-name": "kea-ddns-ctrl-socket" },
    "tsig-keys": [{ "name": "ddns", "algorithm": "hmac-sha256", "secret-file": "/usr/local/etc/kea/ddns.key" }],
    "forward-ddns": { "ddns-domains": [{ "name": ""#;

/// What the configuration of name updates says between domain and reverse zones.
pub const DDNS_REVERSE: &'static str = r#".", "key-name": "ddns", "dns-servers": [{ "ip-address": "127.0.0.1" }] }] },
    "reverse-ddns": { "ddns-domains": ["#;

/// The end of the configuration of Kea's name updates.
pub const DDNS_CLOSE: &'static str = r#"] },
    "loggers": [{ "name": "kea-dhcp-ddns", "output-options": [{ "output": "kea-ddns.log", "flush": true }], "severity": "INFO" }]
  }
}
"#;

/// The script that flushes the cached names of a lease, before the domain is filled in.
pub const FLUSH_HOOK: &'static str = r#"#!/bin/sh

domain="__DOMAIN__"

flush_name() {
    if [ -n "$1" ]; then
        /usr/sbin/local-unbound-control flush "$1" >/dev/null 2>&1
    fi
}

forward_name() {
    case "$1" in
        "") ;;
        *.*) printf '%s\n' "$1" ;;
        *) printf '%s.%s\n' "$1" "$domain" ;;
    esac
}

reverse_ipv4() {
    printf '%s\n' "$1" | awk -F. 'NF == 4 { print $4 "." $3 "." $2 "." $1 ".in-addr.arpa." }'
}

reverse_ipv6() {
    printf '%s\n' "$1" | awk '
        function padded(value) {
            while (length(value) < 4) value = "0" value
            return value
        }
        function reverse(value, result, i) {
            for (i = length(value); i > 0; i--) result = result substr(value, i, 1)
            return result ".ip6.arpa."
        }
        index($0, ":") {
            count = split($0, halves, "::")
            left_count = 0
            right_count = 0
            if (halves[1] != "") left_count = split(halves[1], left, ":")
            if (count == 2 && halves[2] != "") right_count = split(halves[2], right, ":")
            expanded = ""
            for (i = 1; i <= left_count; i++) expanded = expanded padded(left[i])
            for (i = 0; i < 8 - left_count - right_count; i++) expanded = expanded "0000"
            for (i = 1; i <= right_count; i++) expanded = expanded padded(right[i])
            if (length(expanded) == 32) print reverse(expanded)
        }
    '
}

reverse_name() {
    case "$1" in
        *:*) reverse_ipv6 "$1" ;;
        *.*) reverse_ipv4 "$1" ;;
    esac
}

flush_lease() {
    fqdn=$(forward_name "$2")
    reverse=$(reverse_name "$1")
    flush_name "$fqdn"
    flush_name "$reverse"
}

flush_committed_v4() {
    i=0
    while [ "$i" -lt "${LEASES4_SIZE:-0}" ]; do
        eval "address=\${LEASES4_AT${i}_ADDRESS-}"
        eval "hostname=\${LEASES4_AT${i}_HOSTNAME-}"
        flush_lease "$address" "$hostname"
        i=$((i + 1))
    done
    i=0
    while [ "$i" -lt "${DELETED_LEASES4_SIZE:-0}" ]; do
        eval "address=\${DELETED_LEASE4_AT${i}_ADDRESS-}"
        eval "hostname=\${DELETED_LEASE4_AT${i}_HOSTNAME-}"
        flush_lease "$address" "$hostname"
        i=$((i + 1))
    done
}

flush_committed_v6() {
    i=0
    while [ "$i" -lt "${LEASES6_SIZE:-0}" ]; do
        eval "address=\${LEASES6_AT${i}_ADDRESS-}"
        eval "hostname=\${LEASES6_AT${i}_HOSTNAME-}"
        flush_lease "$address" "$hostname"
        i=$((i + 1))
    done
    i=0
    while [ "$i" -lt "${DELETED_LEASES6_SIZE:-0}" ]; do
        eval "address=\${DELETED_LEASE6_AT${i}_ADDRESS-}"
        eval "hostname=\${DELETED_LEASE6_AT${i}_HOSTNAME-}"
        flush_lease "$address" "$hostname"
        i=$((i + 1))
    done
}

case "$1" in
    leases4_committed) flush_committed_v4 ;;
    leases6_committed) flush_committed_v6 ;;
    lease4_release|lease4_expire|lease4_decline) flush_lease "$LEASE4_ADDRESS" "$LEASE4_HOSTNAME" ;;
    lease6_release|lease6_expire|lease6_decline) flush_lease "$LEASE6_ADDRESS" "$LEASE6_HOSTNAME" ;;
    addr6_register)
        flush_lease "$NEW_LEASE6_ADDRESS" "$NEW_LEASE6_HOSTNAME"
        flush_lease "$OLD_LEASE6_ADDRESS" "$OLD_LEASE6_HOSTNAME"
        ;;
esac
"#;

// ---------------------------------------------------------------------------
// DHCP
// ---------------------------------------------------------------------------

/// The Kea DHCPv4 configuration: the network of the bridge, with addresses from 100 to 200
/// to give away.
pub open spec fn dhcp4_spec(domain: Seq<char>, hostname: Seq<char>, bridge: Seq<u8>) -> Seq<char> {
    DHCP4_OPEN@ + HOOKS@ + DHCP4_LEASES@ + domain + DHCP4_SUBNET@ + address::network_text_spec(
        bridge,
    ) + ".0/24"@ + DHCP4_POOL@ + address::network_text_spec(bridge) + ".100-"@
        + address::network_text_spec(bridge) + ".200"@ + DHCP4_ROUTERS@ + address::ipv4_text_spec(
        bridge,
    ) + DHCP4_SERVERS@ + address::ipv4_text_spec(bridge) + DHCP4_NAME@ + hostname + DHCP4_CLOSE@
}

/// The Kea DHCPv4 configuration.
pub fn dhcp4(domain: &str, hostname: &str, bridge: &[u8; 4]) -> (result: String)
    ensures
        result@ == dhcp4_spec(domain@, hostname@, bridge@),
{
    let network = network_text(bridge);
    let router = ipv4_text(bridge);
    owned(DHCP4_OPEN).concat(HOOKS).concat(DHCP4_LEASES).concat(domain).concat(
        DHCP4_SUBNET,
    ).concat(network.as_str()).concat(".0/24").concat(DHCP4_POOL).concat(network.as_str()).concat(
        ".100-",
    ).concat(network.as_str()).concat(".200").concat(DHCP4_ROUTERS).concat(router.as_str()).concat(
        DHCP4_SERVERS,
    ).concat(router.as_str()).concat(DHCP4_NAME).concat(hostname).concat(DHCP4_CLOSE)
}

/// A text without the colons at its end.
pub open spec fn without_colons(s: Seq<char>) -> Seq<char>
    decreases s.len(),
{
    if s.len() > 0 && s.last() == ':' {
        without_colons(s.drop_last())
    } else {
        s
    }
}

/// A text without the colons at its end.
pub fn trim_colons(value: &str) -> (result: String)
    ensures
        result@ == without_colons(value@),
{
    let chars = characters(value);
    let mut end: usize = chars.len();
    proof {
        assert(value@.take(end as int) =~= value@);
    }
    while end > 0 && chars[end - 1] == ':'
        invariant
            chars@ == value@,
            end <= chars@.len(),
            without_colons(value@) == without_colons(value@.take(end as int)),
        decreases end,
    {
        proof {
            assert(value@.take(end as int).drop_last() =~= value@.take(end - 1));
        }
        end -= 1;
    }
    proof {
        assert(value@.take(end as int) =~= value@.subrange(0, end as int));
    }
    slice_text(&chars, 0, end)
}

/// The Kea DHCPv6 configuration: the network of the prefix.
pub open spec fn dhcp6_spec(domain: Seq<char>, config: Config) -> Seq<char> {
    let prefix = without_colons(config.ipv6_prefix@);
    DHCP6_OPEN@ + HOOKS@ + DHCP6_LEASES@ + domain + DHCP6_SUBNET@ + prefix + DHCP6_POOL@ + prefix
        + ":100-"@ + prefix + DHCP6_SERVERS@ + config.ipv6_prefix@ + config.bridge_ip6@
        + DHCP6_CLOSE@
}

/// The Kea DHCPv6 configuration.
pub fn dhcp6(domain: &str, config: &Config) -> (result: String)
    ensures
        result@ == dhcp6_spec(domain@, *config),
{
    let prefix = trim_colons(config.ipv6_prefix.as_str());
    owned(DHCP6_OPEN).concat(HOOKS).concat(DHCP6_LEASES).concat(domain).concat(
        DHCP6_SUBNET,
    ).concat(prefix.as_str()).concat(DHCP6_POOL).concat(prefix.as_str()).concat(":100-").concat(
        prefix.as_str(),
    ).concat(DHCP6_SERVERS).concat(config.ipv6_prefix.as_str()).concat(
        config.bridge_ip6.as_str(),
    ).concat(DHCP6_CLOSE)
}

/// How a reverse zone is named to Kea, with the server that takes its updates.
pub open spec fn reverse_entry(zone: Seq<char>, server: Seq<char>) -> Seq<char> {
    "{ \"name\": \""@ + zone + ".\", \"key-name\": \"ddns\", \"dns-servers\": [{ \"ip-address\": \""@
        + server + "\" }] }"@
}

fn reverse_item(zone: &str, server: &str) -> (result: String)
    ensures
        result@ == reverse_entry(zone@, server@),
{
    owned("{ \"name\": \"").concat(zone).concat(
        ".\", \"key-name\": \"ddns\", \"dns-servers\": [{ \"ip-address\": \"",
    ).concat(server).concat("\" }] }")
}

/// Two texts in a list, each only if its address family is in use.
pub open spec fn by_family(config: Config, first: Seq<char>, second: Seq<char>) -> Seq<Seq<char>> {
    let start = Seq::<Seq<char>>::empty();
    let with_first = if config.use_ipv4 {
        start.push(first)
    } else {
        start
    };
    if config.use_ipv6 {
        with_first.push(second)
    } else {
        with_first
    }
}

/// Two texts in a list, each only if its address family is in use.
pub fn family_list(config: &Config, first: String, second: String) -> (list: Vec<String>)
    ensures
        text::views(list@) == by_family(*config, first@, second@),
{
    let mut list: Vec<String> = Vec::new();
    if config.use_ipv4 {
        list.push(first);
    }
    if config.use_ipv6 {
        list.push(second);
    }
    proof {
        assert(text::views(list@) =~= by_family(*config, first@, second@));
    }
    list
}

/// The configuration of Kea's name updates.
pub open spec fn ddns_spec(
    domain: Seq<char>,
    zone4: Seq<char>,
    zone6: Seq<char>,
    config: Config,
) -> Seq<char> {
    DDNS_OPEN@ + domain + DDNS_REVERSE@ + text::join_spec(
        by_family(config, reverse_entry(zone4, "127.0.0.1"@), reverse_entry(zone6, "::1"@)),
        ", "@,
    ) + DDNS_CLOSE@
}

/// The configuration of Kea's name updates.
pub fn ddns(domain: &str, zone4: &str, zone6: &str, config: &Config) -> (result: String)
    ensures
        result@ == ddns_spec(domain@, zone4@, zone6@, *config),
{
    let domains = family_list(config, reverse_item(zone4, "127.0.0.1"), reverse_item(zone6, "::1"));
    owned(DDNS_OPEN).concat(domain).concat(DDNS_REVERSE).concat(
        join(&domains, ", ").as_str(),
    ).concat(DDNS_CLOSE)
}

/// What `keactrl` is to know.
pub const KEACTRL: &'static str = r#"prefix="/usr/local"
exec_prefix="/usr/local"
kea_dhcp4_config_file="/usr/local/etc/kea/kea-dhcp4.conf"
kea_dhcp6_config_file="/usr/local/etc/kea/kea-dhcp6.conf"
kea_dhcp_ddns_config_file="/usr/local/etc/kea/kea-dhcp-ddns.conf"
kea_ctrl_agent_config_file="/usr/local/etc/kea/kea-ctrl-agent.conf"
kea_netconf_config_file="/usr/local/etc/kea/kea-netconf.conf"
dhcp4_srv="/usr/local/sbin/kea-dhcp4"
dhcp6_srv="/usr/local/sbin/kea-dhcp6"
dhcp_ddns_srv="/usr/local/sbin/kea-dhcp-ddns"
ctrl_agent_srv="/usr/local/sbin/kea-ctrl-agent"
netconf_srv="/usr/local/sbin/kea-netconf"
dhcp4="#;

/// How `keactrl` is told about a service.
pub open spec fn yes_spec(used: bool) -> Seq<char> {
    if used {
        "yes"@
    } else {
        "no"@
    }
}

fn yes(used: bool) -> (text: &'static str)
    ensures
        text@ == yes_spec(used),
{
    if used {
        "yes"
    } else {
        "no"
    }
}

/// The configuration of `keactrl`: DHCP runs for the address families in use.
pub open spec fn keactrl_spec(config: Config) -> Seq<char> {
    KEACTRL@ + yes_spec(config.use_ipv4) + "\ndhcp6="@ + yes_spec(config.use_ipv6)
        + "\ndhcp_ddns=yes\nctrl_agent=no\nnetconf=no\nkea_verbose=no\n"@
}

/// The configuration of `keactrl`.
pub fn keactrl(config: &Config) -> (result: String)
    ensures
        result@ == keactrl_spec(*config),
{
    owned(KEACTRL).concat(yes(config.use_ipv4)).concat("\ndhcp6=").concat(
        yes(config.use_ipv6),
    ).concat("\ndhcp_ddns=yes\nctrl_agent=no\nnetconf=no\nkea_verbose=no\n")
}

/// The script that flushes cached names, for a domain.
pub open spec fn flush_hook_spec(domain: Seq<char>) -> Seq<char> {
    text::replace_spec(FLUSH_HOOK@, "__DOMAIN__"@, domain)
}

/// The script that flushes cached names, for a domain.
pub fn unbound_flush_hook(domain: &str) -> (result: String)
    ensures
        result@ == flush_hook_spec(domain@),
{
    proof {
        reveal_strlit("__DOMAIN__");
    }
    replace(FLUSH_HOOK, "__DOMAIN__", domain)
}

// ---------------------------------------------------------------------------
// Knot
// ---------------------------------------------------------------------------

/// The key of the name updates, as Knot reads it.
pub open spec fn knot_key_spec(key: Seq<char>) -> Seq<char> {
    "key:\n  - id: ddns\n    algorithm: hmac-sha256\n    secret: \""@ + key + "\"\n"@
}

/// The key of the name updates, as Knot reads it.
pub fn knot_key(key: &str) -> (result: String)
    ensures
        result@ == knot_key_spec(key@),
{
    owned("key:\n  - id: ddns\n    algorithm: hmac-sha256\n    secret: \"").concat(key).concat(
        "\"\n",
    )
}

/// The beginning of a zone: its authority and its name server.
pub open spec fn zone_head(zone: Seq<char>, domain: Seq<char>) -> Seq<char> {
    "$ORIGIN "@ + zone + ".\n$TTL 3600\n@ SOA network."@ + domain + ". hostmaster."@ + domain
        + ". ( 1 1h 15m 1w 1h )\n@ NS network."@ + domain + ".\n"@
}

/// The beginning of a zone.
pub fn zone_start(zone: &str, domain: &str) -> (result: String)
    ensures
        result@ == zone_head(zone@, domain@),
{
    owned("$ORIGIN ").concat(zone).concat(".\n$TTL 3600\n@ SOA network.").concat(domain).concat(
        ". hostmaster.",
    ).concat(domain).concat(". ( 1 1h 15m 1w 1h )\n@ NS network.").concat(domain).concat(".\n")
}

/// The zone of the domain: the bridge and the network jail, in the address families in use.
pub open spec fn zone_spec(
    domain: Seq<char>,
    bridge: Seq<u8>,
    network: Seq<u8>,
    config: Config,
) -> Seq<char> {
    let head = zone_head(domain, domain);
    let first = if config.use_ipv4 {
        head + "@ A "@ + address::ipv4_text_spec(bridge) + "\nnetwork A "@
            + address::ipv4_text_spec(network) + "\n"@
    } else {
        head
    };
    if config.use_ipv6 {
        first + "@ AAAA "@ + config.ipv6_prefix@ + config.bridge_ip6@ + "\nnetwork AAAA "@
            + config.ipv6_prefix@ + config.network_ip6@ + "\n"@
    } else {
        first
    }
}

/// The zone of the domain.
pub fn zone(domain: &str, bridge: &[u8; 4], network: &[u8; 4], config: &Config) -> (result: String)
    ensures
        result@ == zone_spec(domain@, bridge@, network@, *config),
{
    let head = zone_start(domain, domain);
    let first = if config.use_ipv4 {
        head.concat("@ A ").concat(ipv4_text(bridge).as_str()).concat("\nnetwork A ").concat(
            ipv4_text(network).as_str(),
        ).concat("\n")
    } else {
        head
    };
    if config.use_ipv6 {
        first.concat("@ AAAA ").concat(config.ipv6_prefix.as_str()).concat(
            config.bridge_ip6.as_str(),
        ).concat("\nnetwork AAAA ").concat(config.ipv6_prefix.as_str()).concat(
            config.network_ip6.as_str(),
        ).concat("\n")
    } else {
        first
    }
}

/// How Knot is told about a zone.
pub open spec fn knot_zone(zone: Seq<char>) -> Seq<char> {
    "  - domain: "@ + zone + ".\n    file: "@ + zone + ".zone\n    acl: ddns_acl\n"@
}

fn knot_entry(zone: &str) -> (result: String)
    ensures
        result@ == knot_zone(zone@),
{
    owned("  - domain: ").concat(zone).concat(".\n    file: ").concat(zone).concat(
        ".zone\n    acl: ddns_acl\n",
    )
}

/// What Knot listens to, besides the host itself.
pub open spec fn listeners(network: Seq<u8>, config: Config) -> Seq<Seq<char>> {
    by_family(
        config,
        address::ipv4_text_spec(network) + "@53"@,
        config.ipv6_prefix@ + config.network_ip6@ + "@53"@,
    )
}

/// The zones that Knot serves.
pub open spec fn knot_zones(
    domain: Seq<char>,
    zone4: Seq<char>,
    zone6: Seq<char>,
    config: Config,
) -> Seq<char> {
    let first = if config.use_ipv4 {
        knot_zone(domain) + knot_zone(zone4)
    } else {
        knot_zone(domain)
    };
    if config.use_ipv6 {
        first + knot_zone(zone6)
    } else {
        first
    }
}

/// The beginning of the Knot configuration.
pub const KNOT_OPEN: &'static str = "include: /usr/local/etc/knot/ddns-key.conf\n\nserver:\n  listen: [ 127.0.0.1@53, ";

/// What the Knot configuration says between listeners and zones.
pub const KNOT_REST: &'static str = " ]\n\nacl:\n  - id: ddns_acl\n    key: ddns\n    action: update\n\nlog:\n  - target: syslog\n    any: info\n\ndatabase:\n  storage: /var/db/knot\n\ntemplate:\n  - id: default\n    storage: /var/db/knot\n    file: %s.zone\n\nzone:\n";

/// The Knot configuration.
pub open spec fn knot_spec(
    domain: Seq<char>,
    zone4: Seq<char>,
    zone6: Seq<char>,
    network: Seq<u8>,
    config: Config,
) -> Seq<char> {
    KNOT_OPEN@ + text::join_spec(listeners(network, config), ", "@) + KNOT_REST@ + knot_zones(
        domain,
        zone4,
        zone6,
        config,
    )
}

/// The Knot configuration.
pub fn knot(domain: &str, zone4: &str, zone6: &str, network: &[u8; 4], config: &Config) -> (result:
    String)
    ensures
        result@ == knot_spec(domain@, zone4@, zone6@, network@, *config),
{
    let listen = family_list(
        config,
        ipv4_text(network).concat("@53"),
        owned(config.ipv6_prefix.as_str()).concat(config.network_ip6.as_str()).concat("@53"),
    );
    let first = if config.use_ipv4 {
        knot_entry(domain).concat(knot_entry(zone4).as_str())
    } else {
        knot_entry(domain)
    };
    let zones = if config.use_ipv6 {
        first.concat(knot_entry(zone6).as_str())
    } else {
        first
    };
    owned(KNOT_OPEN).concat(join(&listen, ", ").as_str()).concat(KNOT_REST).concat(zones.as_str())
}

// ---------------------------------------------------------------------------
// Unbound
// ---------------------------------------------------------------------------

/// The beginning of the Unbound configuration.
pub const UNBOUND_OPEN: &'static str = "server:\n  verbosity: 1\n  username: unbound\n  directory: /var/unbound\n  chroot: /var/unbound\n  pidfile: /var/run/local_unbound.pid\n  auto-trust-anchor-file: /var/unbound/root.key\n  root-hints: /var/unbound/root.hints\n";

/// The end of the Unbound configuration.
pub const UNBOUND_CLOSE: &'static str = "  val-permissive-mode: yes\n\ninclude: /var/unbound/priosun.conf\ninclude: /var/unbound/control.conf\ninclude: /var/unbound/forward.conf\ninclude: /var/unbound/lan-zones.conf\ninclude: /var/unbound/conf.d/*.conf\n";

/// What Unbound listens to and whom it answers, in the address families in use.
pub open spec fn unbound_spec(bridge: Seq<u8>, bridge6: Seq<char>, config: Config) -> Seq<char> {
    let own = "  interface: 127.0.0.1\n"@;
    let first = if config.use_ipv4 {
        own + "  interface: "@ + address::ipv4_text_spec(bridge) + "\n"@
    } else {
        own
    };
    let interfaces = if config.use_ipv6 {
        first + "  interface: "@ + bridge6 + "\n"@
    } else {
        first
    };
    let local = "  access-control: 127.0.0.0/8 allow\n"@;
    let second = if config.use_ipv4 {
        local + "  access-control: 0.0.0.0/0 allow_snoop\n"@
    } else {
        local
    };
    let access = if config.use_ipv6 {
        second + "  access-control: ::0/0 allow_snoop\n"@
    } else {
        second
    };
    UNBOUND_OPEN@ + interfaces + access + UNBOUND_CLOSE@
}

/// The Unbound configuration.
pub fn unbound(bridge: &[u8; 4], bridge6: &str, config: &Config) -> (result: String)
    ensures
        result@ == unbound_spec(bridge@, bridge6@, *config),
{
    let own = owned("  interface: 127.0.0.1\n");
    let first = if config.use_ipv4 {
        own.concat("  interface: ").concat(ipv4_text(bridge).as_str()).concat("\n")
    } else {
        own
    };
    let interfaces = if config.use_ipv6 {
        first.concat("  interface: ").concat(bridge6).concat("\n")
    } else {
        first
    };
    let local = owned("  access-control: 127.0.0.0/8 allow\n");
    let second = if config.use_ipv4 {
        local.concat("  access-control: 0.0.0.0/0 allow_snoop\n")
    } else {
        local
    };
    let access = if config.use_ipv6 {
        second.concat("  access-control: ::0/0 allow_snoop\n")
    } else {
        second
    };
    owned(UNBOUND_OPEN).concat(interfaces.as_str()).concat(access.as_str()).concat(UNBOUND_CLOSE)
}

/// How Unbound is told where the names of a zone are looked up.
pub open spec fn forward_zone(zone: Seq<char>, server: Seq<char>) -> Seq<char> {
    "forward-zone:\n  name: \""@ + zone + "\"\n  forward-addr: "@ + server + "\n"@
}

fn forward_entry(zone: &str, server: &str) -> (result: String)
    ensures
        result@ == forward_zone(zone@, server@),
{
    owned("forward-zone:\n  name: \"").concat(zone).concat("\"\n  forward-addr: ").concat(
        server,
    ).concat("\n")
}

/// What Unbound forwards to the network jail: the domain and the reverse zones of the
/// address families in use.
pub open spec fn forwards_spec(
    domain: Seq<char>,
    bridge: Seq<u8>,
    network: Seq<u8>,
    network6: Ipv6Model,
    config: Config,
) -> Seq<char> {
    let server4 = address::ipv4_text_spec(network);
    let own = forward_zone(
        domain,
        if config.use_ipv4 {
            server4
        } else {
            network6.text
        },
    );
    let first = if config.use_ipv4 {
        own + "\n"@ + forward_zone(address::ipv4_zone_spec(bridge), server4)
    } else {
        own
    };
    if config.use_ipv6 {
        first + "\n"@ + forward_zone(address::ipv6_zone_spec(network6.segments), network6.text)
    } else {
        first
    }
}

/// What Unbound forwards to the network jail.
pub fn forwards(
    domain: &str,
    bridge: &[u8; 4],
    network: &[u8; 4],
    network6: &Ipv6Address,
    config: &Config,
) -> (result: String)
    ensures
        result@ == forwards_spec(domain@, bridge@, network@, network6@, *config),
{
    let server4 = ipv4_text(network);
    let own = if config.use_ipv4 {
        forward_entry(domain, server4.as_str())
    } else {
        forward_entry(domain, network6.text.as_str())
    };
    let first = if config.use_ipv4 {
        own.concat("\n").concat(
            forward_entry(
                address::ipv4_reverse_zone(bridge).as_str(),
                server4.as_str(),
            ).as_str(),
        )
    } else {
        own
    };
    if config.use_ipv6 {
        first.concat("\n").concat(
            forward_entry(
                address::ipv6_reverse_zone(&network6.segments).as_str(),
                network6.text.as_str(),
            ).as_str(),
        )
    } else {
        first
    }
}

/// The name server that a line of a resolver configuration names, unless it is the host
/// itself.
pub open spec fn named_server(line: Seq<char>) -> Option<Seq<char>> {
    if !text::starts_with_spec(line, "nameserver "@) {
        None
    } else {
        let server = text::trim_spec(line.skip("nameserver "@.len() as int));
        if server.len() == 0 || server == "127.0.0.1"@ || server == "::1"@ {
            None
        } else {
            Some(server)
        }
    }
}

/// The name servers that the lines of a resolver configuration name.
pub open spec fn named_servers(lines: Seq<Seq<char>>) -> Seq<Seq<char>>
    decreases lines.len(),
{
    if lines.len() == 0 {
        Seq::empty()
    } else {
        match named_server(lines.last()) {
            Some(server) => named_servers(lines.drop_last()).push(server),
            None => named_servers(lines.drop_last()),
        }
    }
}

fn read_server(line: &str) -> (server: Option<String>)
    ensures
        match server {
            Some(server) => named_server(line@) == Some(server@),
            None => named_server(line@) is None,
        },
{
    if !starts_with(line, "nameserver ") {
        return None;
    }
    proof {
        reveal_strlit("nameserver ");
    }
    let chars = characters(line);
    let rest = slice_text(&chars, 11, chars.len());
    proof {
        assert(rest@ =~= line@.skip(11));
    }
    let server = trim(rest.as_str());
    if server.as_str().unicode_len() == 0 || same(server.as_str(), "127.0.0.1") || same(
        server.as_str(),
        "::1",
    ) {
        None
    } else {
        Some(server)
    }
}

fn read_servers(content: &str) -> (servers: Vec<String>)
    ensures
        text::views(servers@) == named_servers(text::lines_spec(content@)),
{
    let all = lines(content);
    let ghost model = text::lines_spec(content@);
    let mut servers: Vec<String> = Vec::new();
    let mut index: usize = 0;
    proof {
        assert(text::views(servers@) =~= named_servers(model.take(0)));
    }
    while index < all.len()
        invariant
            index <= all@.len(),
            text::views(all@) == model,
            text::views(servers@) == named_servers(model.take(index as int)),
        decreases all@.len() - index,
    {
        proof {
            assert(model.take(index + 1).drop_last() =~= model.take(index as int));
            assert(model.take(index + 1).last() == all@[index as int]@);
        }
        let ghost before = servers@;
        match read_server(all[index].as_str()) {
            Some(server) => {
                servers.push(server);
                proof {
                    assert(text::views(servers@) =~= text::views(before).push(server@));
                }
            },
            None => {},
        }
        index += 1;
    }
    proof {
        assert(model.take(index as int) =~= model);
    }
    servers
}

/// The name servers that other names are forwarded to: those that the configuration sets,
/// or else those that the resolver configuration names, or else a public one.
pub open spec fn upstream_servers(config: Config, resolver: Option<Seq<char>>) -> Seq<Seq<char>> {
    let chosen = text::views(config.dns_override@);
    let found = if chosen.len() > 0 {
        chosen
    } else {
        match resolver {
            Some(content) => named_servers(text::lines_spec(content)),
            None => chosen,
        }
    };
    if found.len() > 0 {
        found
    } else {
        Seq::<Seq<char>>::empty().push("1.1.1.1"@)
    }
}

/// The lines that name the servers for other names.
pub open spec fn forward_lines(servers: Seq<Seq<char>>) -> Seq<char>
    decreases servers.len(),
{
    if servers.len() == 0 {
        "forward-zone:\n  name: \".\"\n"@
    } else {
        forward_lines(servers.drop_last()) + "  forward-addr: "@ + servers.last() + "\n"@
    }
}

/// How Unbound is told where other names are looked up.
pub fn upstream_forward_config(config: &Config, resolver: Option<&str>) -> (result: String)
    ensures
        result@ == forward_lines(upstream_servers(*config, text::str_view(resolver))),
{
    let chosen = text::copies(&config.dns_override);
    let found = if chosen.len() > 0 {
        chosen
    } else {
        match resolver {
            Some(content) => read_servers(content),
            None => chosen,
        }
    };
    let servers = if found.len() > 0 {
        found
    } else {
        let mut fallback: Vec<String> = Vec::new();
        fallback.push(owned("1.1.1.1"));
        proof {
            assert(text::views(fallback@) =~= Seq::<Seq<char>>::empty().push("1.1.1.1"@));
        }
        fallback
    };
    let ghost model = text::views(servers@);
    let mut output = owned("forward-zone:\n  name: \".\"\n");
    let mut index: usize = 0;
    while index < servers.len()
        invariant
            index <= servers@.len(),
            text::views(servers@) == model,
            output@ == forward_lines(model.take(index as int)),
        decreases servers@.len() - index,
    {
        proof {
            assert(model.take(index + 1).drop_last() =~= model.take(index as int));
            assert(model.take(index + 1).last() == servers@[index as int]@);
        }
        output = output.concat("  forward-addr: ").concat(servers[index].as_str()).concat("\n");
        index += 1;
    }
    proof {
        assert(model.take(index as int) =~= model);
    }
    output
}

// ---------------------------------------------------------------------------
// Laws
// ---------------------------------------------------------------------------

/// The DHCPv4 server gives away addresses of the network of 256 that the bridge lies in, from
/// 100 to 200, and names the bridge both as the router and as the name server. Names are
/// registered under the domain, and the host is what they are searched in.
#[verifier::spinoff_prover]
#[verifier::rlimit(40)]
pub proof fn law_leases_lead_to_the_bridge(domain: Seq<char>, hostname: Seq<char>, bridge: Seq<u8>)
    ensures
        ({
            let file = dhcp4_spec(domain, hostname, bridge);
            let network = address::network_text_spec(bridge);
            let router = address::ipv4_text_spec(bridge);
            &&& text::contains_spec(file, "\"subnet\": \""@ + network + ".0/24"@)
            &&& text::contains_spec(
                file,
                "\"pool\": \""@ + (network + ".100-"@ + network) + ".200\" }]"@,
            )
            &&& text::contains_spec(file, "{ \"name\": \"routers\", \"data\": \""@ + router + "\" }"@)
            &&& text::contains_spec(file, "{ \"name\": \"domain-name-servers\", \"data\": \""@ + router + "\" }"@)
            &&& text::contains_spec(file, "{ \"name\": \"domain-name\", \"data\": \""@ + hostname + "\" }"@)
            &&& text::contains_spec(file, "\"ddns-qualifying-suffix\": \""@ + domain + "\""@)
        }),
{
    broadcast use text::group_texts_within;

    let network = address::network_text_spec(bridge);
    let router = address::ipv4_text_spec(bridge);
    reveal_strlit("\n    \"match-client-id\": false,\n    \"lease-database\": { \"type\": \"memfile\", \"persist\": true },\n    \"valid-lifetime\": 3600,\n    \"ddns-send-updates\": true,\n    \"ddns-update-on-renew\": true,\n    \"ddns-override-no-update\": true,\n    \"ddns-override-client-update\": true,\n    \"ddns-qualifying-suffix\": \"");
    reveal_strlit("\",\n    \"dhcp-ddns\": { \"enable-updates\": true },\n    \"subnet4\": [{\n      \"id\": 1,\n      \"subnet\": \"");
    reveal_strlit("\",\n      \"pools\": [{ \"pool\": \"");
    reveal_strlit("\" }],\n      \"option-data\": [\n        { \"name\": \"routers\", \"data\": \"");
    reveal_strlit("\" },\n        { \"name\": \"domain-name-servers\", \"data\": \"");
    reveal_strlit("\" },\n        { \"name\": \"domain-name\", \"data\": \"");
    reveal_strlit("\" }\n      ]\n    }],\n    \"loggers\": [{\n      \"name\": \"kea-dhcp4\",\n      \"output-options\": [{\n        \"output\": \"kea-dhcp4.log\",\n        \"flush\": true\n      }],\n      \"severity\": \"INFO\"\n    }]\n  }\n}\n");
    reveal_strlit(".0/24");
    reveal_strlit(".100-");
    reveal_strlit(".200");
    reveal_strlit(".200\" }]");
    reveal_strlit("\"ddns-qualifying-suffix\": \"");
    reveal_strlit("\"subnet\": \"");
    reveal_strlit("\"pool\": \"");
    reveal_strlit("{ \"name\": \"routers\", \"data\": \"");
    reveal_strlit("{ \"name\": \"domain-name-servers\", \"data\": \"");
    reveal_strlit("{ \"name\": \"domain-name\", \"data\": \"");
    reveal_strlit("\" }");
    reveal_strlit("\"");
    assert(DHCP4_LEASES@.skip(268) =~= "\"ddns-qualifying-suffix\": \""@);
    assert(DHCP4_SUBNET@.take(1) =~= "\""@);
    assert(DHCP4_SUBNET@.skip(87) =~= "\"subnet\": \""@);
    assert(DHCP4_POOL@.skip(21) =~= "\"pool\": \""@);
    assert(DHCP4_ROUTERS@.skip(37) =~= "{ \"name\": \"routers\", \"data\": \""@);
    assert(DHCP4_SERVERS@.take(3) =~= "\" }"@);
    assert(DHCP4_SERVERS@.skip(13) =~= "{ \"name\": \"domain-name-servers\", \"data\": \""@);
    assert(DHCP4_NAME@.take(3) =~= "\" }"@);
    assert(DHCP4_NAME@.skip(13) =~= "{ \"name\": \"domain-name\", \"data\": \""@);
    assert(DHCP4_CLOSE@.take(3) =~= "\" }"@);
    assert(".0/24"@.take(5) =~= ".0/24"@);
    let a = DHCP4_OPEN@ + HOOKS@ + DHCP4_LEASES@;
    text::lemma_contains_across(a, domain, DHCP4_SUBNET@, "\"ddns-qualifying-suffix\": \""@, "\""@);
    let b = a + domain + DHCP4_SUBNET@;
    text::lemma_contains_across(b, network, ".0/24"@, "\"subnet\": \""@, ".0/24"@);
    let c = b + network + ".0/24"@ + DHCP4_POOL@;
    let end = ".200"@ + DHCP4_ROUTERS@;
    assert(end.take(8) =~= ".200\" }]"@);
    text::lemma_contains_across(
        c,
        network + ".100-"@ + network,
        end,
        "\"pool\": \""@,
        ".200\" }]"@,
    );
    let d = c + network + ".100-"@ + network + ".200"@ + DHCP4_ROUTERS@;
    assert(c + (network + ".100-"@ + network) + end =~= d);
    text::lemma_contains_across(d, router, DHCP4_SERVERS@, "{ \"name\": \"routers\", \"data\": \""@, "\" }"@);
    let e = d + router + DHCP4_SERVERS@;
    text::lemma_contains_across(e, router, DHCP4_NAME@, "{ \"name\": \"domain-name-servers\", \"data\": \""@, "\" }"@);
    let f = e + router + DHCP4_NAME@;
    text::lemma_contains_across(f, hostname, DHCP4_CLOSE@, "{ \"name\": \"domain-name\", \"data\": \""@, "\" }"@);
}

/// A text without the colons at its end is what comes before them: it does not end with a
/// colon, and nothing but colons is taken away.
pub proof fn law_only_colons_are_taken_away(s: Seq<char>)
    ensures
        ({
            let kept = without_colons(s);
            &&& kept.len() <= s.len()
            &&& kept == s.take(kept.len() as int)
            &&& kept.len() == 0 || kept.last() != ':'
            &&& forall|i: int| kept.len() <= i < s.len() ==> #[trigger] s[i] == ':'
        }),
    decreases s.len(),
{
    if s.len() > 0 && s.last() == ':' {
        law_only_colons_are_taken_away(s.drop_last());
        let kept = without_colons(s);
        assert(kept =~= s.take(kept.len() as int));
        assert forall|i: int| kept.len() <= i < s.len() implies #[trigger] s[i] == ':' by {
            if i < s.len() - 1 {
                assert(s.drop_last()[i] == s[i]);
            }
        }
    } else {
        assert(s.take(s.len() as int) =~= s);
    }
}

/// The DHCPv6 server gives away addresses of the network of the prefix and names the bridge as
/// the name server; names are registered under the domain.
#[verifier::spinoff_prover]
#[verifier::rlimit(40)]
pub proof fn law_leases6_lead_to_the_bridge(domain: Seq<char>, config: Config)
    ensures
        ({
            let file = dhcp6_spec(domain, config);
            let prefix = without_colons(config.ipv6_prefix@);
            let server = config.ipv6_prefix@ + config.bridge_ip6@;
            &&& text::contains_spec(file, "\"subnet\": \""@ + prefix + "/64\""@)
            &&& text::contains_spec(
                file,
                "\"pool\": \""@ + (prefix + ":100-"@ + prefix) + ":ffff\" }]"@,
            )
            &&& text::contains_spec(file, "{ \"name\": \"dns-servers\", \"data\": \""@ + server + "\" }]"@)
            &&& text::contains_spec(file, "\"ddns-qualifying-suffix\": \""@ + domain + "\""@)
        }),
{
    broadcast use text::group_texts_within;

    let prefix = without_colons(config.ipv6_prefix@);
    let server = config.ipv6_prefix@ + config.bridge_ip6@;
    reveal_strlit("\n    \"lease-database\": { \"type\": \"memfile\", \"persist\": true },\n    \"valid-lifetime\": 3600,\n    \"ddns-send-updates\": true,\n    \"ddns-update-on-renew\": true,\n    \"ddns-override-no-update\": true,\n    \"ddns-override-client-update\": true,\n    \"ddns-qualifying-suffix\": \"");
    reveal_strlit("\",\n    \"dhcp-ddns\": { \"enable-updates\": true },\n    \"subnet6\": [{\n      \"id\": 1,\n      \"subnet\": \"");
    reveal_strlit("/64\",\n      \"pools\": [{ \"pool\": \"");
    reveal_strlit(":ffff\" }],\n      \"option-data\": [{ \"name\": \"dns-servers\", \"data\": \"");
    reveal_strlit("\" }]\n    }],\n    \"loggers\": [{\n      \"name\": \"kea-dhcp6\",\n      \"output-options\": [{\n        \"output\": \"kea-dhcp6.log\",\n        \"flush\": true\n      }],\n      \"severity\": \"INFO\"\n    }]\n  }\n}\n");
    reveal_strlit("\"ddns-qualifying-suffix\": \"");
    reveal_strlit("\"subnet\": \"");
    reveal_strlit("\"pool\": \"");
    reveal_strlit("{ \"name\": \"dns-servers\", \"data\": \"");
    reveal_strlit("\"");
    reveal_strlit("/64\"");
    reveal_strlit(":ffff\" }]");
    reveal_strlit("\" }]");
    assert(DHCP6_LEASES@.skip(238) =~= "\"ddns-qualifying-suffix\": \""@);
    assert(DHCP6_SUBNET@.take(1) =~= "\""@);
    assert(DHCP6_SUBNET@.skip(87) =~= "\"subnet\": \""@);
    assert(DHCP6_POOL@.take(4) =~= "/64\""@);
    assert(DHCP6_POOL@.skip(24) =~= "\"pool\": \""@);
    assert(DHCP6_SERVERS@.take(9) =~= ":ffff\" }]"@);
    assert(DHCP6_SERVERS@.skip(33) =~= "{ \"name\": \"dns-servers\", \"data\": \""@);
    assert(DHCP6_CLOSE@.take(4) =~= "\" }]"@);
    let a = DHCP6_OPEN@ + HOOKS@ + DHCP6_LEASES@;
    text::lemma_contains_across(a, domain, DHCP6_SUBNET@, "\"ddns-qualifying-suffix\": \""@, "\""@);
    let b = a + domain + DHCP6_SUBNET@;
    text::lemma_contains_across(b, prefix, DHCP6_POOL@, "\"subnet\": \""@, "/64\""@);
    let c = b + prefix + DHCP6_POOL@;
    text::lemma_contains_across(
        c,
        prefix + ":100-"@ + prefix,
        DHCP6_SERVERS@,
        "\"pool\": \""@,
        ":ffff\" }]"@,
    );
    let d = c + prefix + ":100-"@ + prefix + DHCP6_SERVERS@;
    assert(c + (prefix + ":100-"@ + prefix) + DHCP6_SERVERS@ =~= d);
    text::lemma_contains_across(d, server, DHCP6_CLOSE@, "{ \"name\": \"dns-servers\", \"data\": \""@, "\" }]"@);
    assert(d + server + DHCP6_CLOSE@ =~= dhcp6_spec(domain, config));
}

/// Two texts in a list are both found in the list where both address families are in use,
/// and nothing but the one of the family in use where only one is.
pub proof fn law_families_are_listed(config: Config, first: Seq<char>, second: Seq<char>)
    ensures
        ({
            let list = by_family(config, first, second);
            &&& config.use_ipv4 && config.use_ipv6 ==> list =~= seq![first, second]
            &&& config.use_ipv4 && !config.use_ipv6 ==> list =~= seq![first]
            &&& !config.use_ipv4 && config.use_ipv6 ==> list =~= seq![second]
            &&& !config.use_ipv4 && !config.use_ipv6 ==> list.len() == 0
        }),
{
}

proof fn lemma_joined_families(config: Config, first: Seq<char>, second: Seq<char>)
    ensures
        ({
            let joined = text::join_spec(by_family(config, first, second), ", "@);
            &&& config.use_ipv4 ==> text::starts_with_spec(joined, first)
            &&& config.use_ipv6 ==> text::ends_with_spec(joined, second)
            &&& config.use_ipv4 && config.use_ipv6 ==> joined == first + ", "@ + second
            &&& config.use_ipv4 && !config.use_ipv6 ==> joined == first
            &&& !config.use_ipv4 && config.use_ipv6 ==> joined == second
        }),
{
    let list = by_family(config, first, second);
    law_families_are_listed(config, first, second);
    reveal_with_fuel(text::join_spec, 3);
    if config.use_ipv4 && config.use_ipv6 {
        assert(list.drop_last() =~= seq![first]);
        let joined = first + ", "@ + second;
        assert(joined.take(first.len() as int) =~= first);
        assert(joined.skip(joined.len() - second.len()) =~= second);
    } else {
        assert(first.take(first.len() as int) =~= first);
        assert(second.skip(0) =~= second);
    }
}

/// Kea sends the updates of the domain, and of the reverse zone of each address family in
/// use, to the name server beside it and signs them with the key that is kept for it.
#[verifier::spinoff_prover]
#[verifier::rlimit(40)]
pub proof fn law_updates_go_to_the_zones(
    domain: Seq<char>,
    zone4: Seq<char>,
    zone6: Seq<char>,
    config: Config,
)
    ensures
        ({
            let file = ddns_spec(domain, zone4, zone6, config);
            &&& text::contains_spec(file, "\"forward-ddns\": { \"ddns-domains\": [{ \"name\": \""@ + domain + ".\", \"key-name\": \"ddns\", \"dns-servers\": [{ \"ip-address\": \"127.0.0.1\" }] }] }"@)
            &&& text::contains_spec(
                file,
                "\"secret-file\": \"/usr/local/etc/kea/ddns.key\""@,
            )
            &&& config.use_ipv4 ==> text::contains_spec(
                file,
                "\"reverse-ddns\": { \"ddns-domains\": [{ \"name\": \""@ + zone4 + ".\", \"key-name\": \"ddns\", \"dns-servers\": [{ \"ip-address\": \"127.0.0.1\" }] }"@,
            )
            &&& config.use_ipv6 ==> text::contains_spec(
                file,
                "{ \"name\": \""@ + zone6 + ".\", \"key-name\": \"ddns\", \"dns-servers\": [{ \"ip-address\": \"::1\" }] }] }"@,
            )
            &&& !config.use_ipv4 && config.use_ipv6 ==> text::contains_spec(
                file,
                "\"reverse-ddns\": { \"ddns-domains\": [{ \"name\": \""@ + zone6 + ".\", \"key-name\": \"ddns\", \"dns-servers\": [{ \"ip-address\": \"::1\" }] }] }"@,
            )
            &&& config.use_ipv4 && !config.use_ipv6 ==> text::contains_spec(
                file,
                "{ \"name\": \""@ + zone4 + ".\", \"key-name\": \"ddns\", \"dns-servers\": [{ \"ip-address\": \"127.0.0.1\" }] }] }"@,
            )
        }),
{
    broadcast use text::group_texts_within;

    let first = reverse_entry(zone4, "127.0.0.1"@);
    let second = reverse_entry(zone6, "::1"@);
    let joined = text::join_spec(by_family(config, first, second), ", "@);
    lemma_joined_families(config, first, second);
    reveal_strlit("{\n  \"DhcpDdns\": {\n    \"control-socket\": { \"socket-type\": \"unix\", \"socket-name\": \"kea-ddns-ctrl-socket\" },\n    \"tsig-keys\": [{ \"name\": \"ddns\", \"algorithm\": \"hmac-sha256\", \"secret-file\": \"/usr/local/etc/kea/ddns.key\" }],\n    \"forward-ddns\": { \"ddns-domains\": [{ \"name\": \"");
    reveal_strlit(".\", \"key-name\": \"ddns\", \"dns-servers\": [{ \"ip-address\": \"127.0.0.1\" }] }] },\n    \"reverse-ddns\": { \"ddns-domains\": [");
    reveal_strlit("] },\n    \"loggers\": [{ \"name\": \"kea-dhcp-ddns\", \"output-options\": [{ \"output\": \"kea-ddns.log\", \"flush\": true }], \"severity\": \"INFO\" }]\n  }\n}\n");
    reveal_strlit("\"forward-ddns\": { \"ddns-domains\": [{ \"name\": \"");
    reveal_strlit(".\", \"key-name\": \"ddns\", \"dns-servers\": [{ \"ip-address\": \"127.0.0.1\" }] }] }");
    reveal_strlit("\"secret-file\": \"/usr/local/etc/kea/ddns.key\"");
    reveal_strlit("\"reverse-ddns\": { \"ddns-domains\": [{ \"name\": \"");
    reveal_strlit("{ \"name\": \"");
    reveal_strlit(".\", \"key-name\": \"ddns\", \"dns-servers\": [{ \"ip-address\": \"");
    reveal_strlit(".\", \"key-name\": \"ddns\", \"dns-servers\": [{ \"ip-address\": \"127.0.0.1\" }] }");
    reveal_strlit(".\", \"key-name\": \"ddns\", \"dns-servers\": [{ \"ip-address\": \"::1\" }] }] }");
    reveal_strlit(".\", \"key-name\": \"ddns\", \"dns-servers\": [{ \"ip-address\": \"127.0.0.1\" }] }] }");
    reveal_strlit("127.0.0.1");
    reveal_strlit("::1");
    reveal_strlit("\" }] }");
    reveal_strlit("\"reverse-ddns\": { \"ddns-domains\": [");
    reveal_strlit("] }");
    assert(DDNS_OPEN@.skip(223) =~= "\"forward-ddns\": { \"ddns-domains\": [{ \"name\": \""@);
    assert(DDNS_REVERSE@.take(75) =~= ".\", \"key-name\": \"ddns\", \"dns-servers\": [{ \"ip-address\": \"127.0.0.1\" }] }] }"@);
    assert(DDNS_OPEN@.skip(170).take(44) =~= "\"secret-file\": \"/usr/local/etc/kea/ddns.key\""@);
    assert(text::starts_with_spec(DDNS_OPEN@.skip(170), "\"secret-file\": \"/usr/local/etc/kea/ddns.key\""@));
    assert(DDNS_REVERSE@.skip(81) =~= "\"reverse-ddns\": { \"ddns-domains\": ["@);
    assert(DDNS_CLOSE@.take(3) =~= "] }"@);
    text::lemma_contains_across(DDNS_OPEN@, domain, DDNS_REVERSE@, "\"forward-ddns\": { \"ddns-domains\": [{ \"name\": \""@, ".\", \"key-name\": \"ddns\", \"dns-servers\": [{ \"ip-address\": \"127.0.0.1\" }] }] }"@);
    let front = DDNS_OPEN@ + domain + DDNS_REVERSE@;
    assert(first =~= "{ \"name\": \""@ + zone4 + ".\", \"key-name\": \"ddns\", \"dns-servers\": [{ \"ip-address\": \"127.0.0.1\" }] }"@);
    assert(second =~= "{ \"name\": \""@ + zone6 + ".\", \"key-name\": \"ddns\", \"dns-servers\": [{ \"ip-address\": \""@ + "::1"@ + "\" }] }"@);
    assert(first + "] }"@ =~= "{ \"name\": \""@ + zone4 + ".\", \"key-name\": \"ddns\", \"dns-servers\": [{ \"ip-address\": \"127.0.0.1\" }] }] }"@);
    assert(second + "] }"@ =~= "{ \"name\": \""@ + zone6 + ".\", \"key-name\": \"ddns\", \"dns-servers\": [{ \"ip-address\": \"::1\" }] }] }"@);
    if config.use_ipv4 {
        assert("\"reverse-ddns\": { \"ddns-domains\": ["@ + first =~= "\"reverse-ddns\": { \"ddns-domains\": [{ \"name\": \""@ + zone4 + ".\", \"key-name\": \"ddns\", \"dns-servers\": [{ \"ip-address\": \"127.0.0.1\" }] }"@);
        let none: Seq<char> = Seq::empty();
        text::lemma_contains_across(front, none, joined, "\"reverse-ddns\": { \"ddns-domains\": ["@, first);
        assert(front + none + joined =~= front + joined);
        assert("\"reverse-ddns\": { \"ddns-domains\": ["@ + none + first =~= "\"reverse-ddns\": { \"ddns-domains\": ["@ + first);
        if !config.use_ipv6 {
            lemma_end(joined, first);
            text::lemma_contains_across(front + joined, none, DDNS_CLOSE@, first, "] }"@);
            assert(front + joined + none + DDNS_CLOSE@ =~= front + joined + DDNS_CLOSE@);
            assert(first + none + "] }"@ =~= first + "] }"@);
        }
    }
    if config.use_ipv6 {
        let none: Seq<char> = Seq::empty();
        text::lemma_contains_across(front + joined, none, DDNS_CLOSE@, second, "] }"@);
        assert(front + joined + none + DDNS_CLOSE@ =~= front + joined + DDNS_CLOSE@);
        assert(second + none + "] }"@ =~= second + "] }"@);
        if !config.use_ipv4 {
            text::lemma_contains_across(front, second, DDNS_CLOSE@, "\"reverse-ddns\": { \"ddns-domains\": ["@, "] }"@);
            assert("\"reverse-ddns\": { \"ddns-domains\": ["@ + second + "] }"@ =~= "\"reverse-ddns\": { \"ddns-domains\": [{ \"name\": \""@ + zone6
                + ".\", \"key-name\": \"ddns\", \"dns-servers\": [{ \"ip-address\": \"::1\" }] }] }"@);
        }
    }
}

proof fn lemma_end(s: Seq<char>, same: Seq<char>)
    requires
        s == same,
    ensures
        text::ends_with_spec(s, same),
{
    assert(s.skip(0) =~= same);
}

/// Knot listens to the addresses of the network jail in the families in use, beside its own
/// one, takes updates with the key that is kept for it, and serves the domain and the reverse
/// zone of each family in use, each from the file of its name.
#[verifier::spinoff_prover]
#[verifier::rlimit(40)]
pub proof fn law_knot_serves_the_zones(
    domain: Seq<char>,
    zone4: Seq<char>,
    zone6: Seq<char>,
    network: Seq<u8>,
    config: Config,
)
    ensures
        ({
            let file = knot_spec(domain, zone4, zone6, network, config);
            let first = address::ipv4_text_spec(network);
            let second = config.ipv6_prefix@ + config.network_ip6@;
            &&& config.use_ipv4 ==> text::contains_spec(file, "listen: [ 127.0.0.1@53, "@ + first + "@53"@)
            &&& config.use_ipv6 ==> text::contains_spec(file, ", "@ + second + "@53 ]\n"@)
            &&& text::contains_spec(file, "include: /usr/local/etc/knot/ddns-key.conf\n"@)
            &&& text::contains_spec(file, "acl:\n  - id: ddns_acl\n    key: ddns\n    action: update\n"@)
            &&& text::contains_spec(file, "storage: /var/db/knot\n"@)
            &&& text::contains_spec(file, served_zone(domain))
            &&& config.use_ipv4 ==> text::contains_spec(file, served_zone(zone4))
            &&& config.use_ipv6 ==> text::contains_spec(file, served_zone(zone6))
        }),
{
    broadcast use text::group_texts_within;

    let first = address::ipv4_text_spec(network);
    let second = config.ipv6_prefix@ + config.network_ip6@;
    let joined = text::join_spec(listeners(network, config), ", "@);
    lemma_joined_families(config, first + "@53"@, second + "@53"@);
    reveal_strlit("include: /usr/local/etc/knot/ddns-key.conf\n\nserver:\n  listen: [ 127.0.0.1@53, ");
    reveal_strlit(" ]\n\nacl:\n  - id: ddns_acl\n    key: ddns\n    action: update\n\nlog:\n  - target: syslog\n    any: info\n\ndatabase:\n  storage: /var/db/knot\n\ntemplate:\n  - id: default\n    storage: /var/db/knot\n    file: %s.zone\n\nzone:\n");
    reveal_strlit("listen: [ 127.0.0.1@53, ");
    reveal_strlit("@53");
    reveal_strlit("@53 ]\n");
    reveal_strlit(" ]\n");
    reveal_strlit(", ");
    reveal_strlit("include: /usr/local/etc/knot/ddns-key.conf\n");
    reveal_strlit("acl:\n  - id: ddns_acl\n    key: ddns\n    action: update\n");
    reveal_strlit("storage: /var/db/knot\n");
    reveal_strlit("  - domain: ");
    reveal_strlit(".\n    file: ");
    reveal_strlit(".zone\n    acl: ddns_acl\n");
    assert(KNOT_OPEN@.skip(54) =~= "listen: [ 127.0.0.1@53, "@);
    assert(KNOT_OPEN@.skip(76) =~= ", "@);
    assert(KNOT_REST@.take(3) =~= " ]\n"@);
    assert(KNOT_OPEN@.skip(0).take(43) =~= "include: /usr/local/etc/knot/ddns-key.conf\n"@);
    assert(text::starts_with_spec(KNOT_OPEN@.skip(0), "include: /usr/local/etc/knot/ddns-key.conf\n"@));
    assert(KNOT_REST@.skip(4).take(55) =~= "acl:\n  - id: ddns_acl\n    key: ddns\n    action: update\n"@);
    assert(text::starts_with_spec(KNOT_REST@.skip(4), "acl:\n  - id: ddns_acl\n    key: ddns\n    action: update\n"@));
    assert(KNOT_REST@.skip(111).take(22) =~= "storage: /var/db/knot\n"@);
    assert(text::starts_with_spec(KNOT_REST@.skip(111), "storage: /var/db/knot\n"@));
    reveal_strlit(".\n");
    reveal_strlit("    file: ");
    reveal_strlit(".zone\n");
    reveal_strlit("    acl: ddns_acl\n");
    let none: Seq<char> = Seq::empty();
    if config.use_ipv4 {
        text::lemma_contains_across(KNOT_OPEN@, none, joined, "listen: [ 127.0.0.1@53, "@, first + "@53"@);
        assert(KNOT_OPEN@ + none + joined =~= KNOT_OPEN@ + joined);
        assert("listen: [ 127.0.0.1@53, "@ + none + (first + "@53"@) =~= "listen: [ 127.0.0.1@53, "@ + first + "@53"@);
    }
    if config.use_ipv6 {
        let last = ", "@ + (second + "@53"@);
        let whole = KNOT_OPEN@ + joined;
        if config.use_ipv4 {
            assert(joined =~= (first + "@53"@) + last);
            assert(whole.skip(whole.len() - last.len()) =~= last);
        } else {
            assert(whole.skip(whole.len() - last.len()) =~= last);
        }
        text::lemma_contains_across(whole, none, KNOT_REST@, last, " ]\n"@);
        assert(whole + none + KNOT_REST@ =~= whole + KNOT_REST@);
        assert(last + none + " ]\n"@ =~= ", "@ + second + "@53 ]\n"@);
    }
    assert(knot_zone(domain) =~= served_zone(domain));
    assert(knot_zone(zone4) =~= served_zone(zone4));
    assert(knot_zone(zone6) =~= served_zone(zone6));
}

/// A zone in the Knot configuration: it is served from the file of its name and may be updated.
pub open spec fn served_zone(zone: Seq<char>) -> Seq<char> {
    ("  - domain: "@ + zone + ".\n"@) + ("    file: "@ + zone + ".zone\n"@)
        + "    acl: ddns_acl\n"@
}

/// A zone begins with its own name, and the network jail is the authority and the name server
/// of every zone, by its name in the domain.
pub proof fn law_zone_begins_with_its_name(zone: Seq<char>, domain: Seq<char>)
    ensures
        text::starts_with_spec(zone_head(zone, domain), "$ORIGIN "@ + zone + ".\n"@),
        text::contains_spec(
            zone_head(zone, domain),
            "@ SOA network."@ + domain + ". hostmaster."@,
        ),
        text::contains_spec(zone_head(zone, domain), "@ NS network."@ + domain + ".\n"@),
{
    broadcast use text::group_texts_within;

    reveal_strlit("$ORIGIN ");
    reveal_strlit(".\n$TTL 3600\n@ SOA network.");
    reveal_strlit(". hostmaster.");
    reveal_strlit(". ( 1 1h 15m 1w 1h )\n@ NS network.");
    reveal_strlit(".\n");
    reveal_strlit("@ SOA network.");
    reveal_strlit("@ NS network.");
    assert(".\n$TTL 3600\n@ SOA network."@.take(2) =~= ".\n"@);
    assert(".\n$TTL 3600\n@ SOA network."@.skip(12) =~= "@ SOA network."@);
    assert(". hostmaster."@.take(13) =~= ". hostmaster."@);
    assert(". ( 1 1h 15m 1w 1h )\n@ NS network."@.skip(21) =~= "@ NS network."@);
    assert(".\n"@.take(2) =~= ".\n"@);
    let a = "$ORIGIN "@ + zone + ".\n$TTL 3600\n@ SOA network."@;
    assert(a.take(zone.len() as int + 10) =~= "$ORIGIN "@ + zone + ".\n"@);
    text::lemma_contains_across(a, domain, ". hostmaster."@, "@ SOA network."@, ". hostmaster."@);
    let b = a + domain + ". hostmaster."@ + domain + ". ( 1 1h 15m 1w 1h )\n@ NS network."@;
    text::lemma_contains_across(b, domain, ".\n"@, "@ NS network."@, ".\n"@);
}

/// In the zone of the domain, the domain itself is the bridge and `network` is the network
/// jail, in each address family in use.
pub proof fn law_zone_names_the_bridge_and_the_jail(
    domain: Seq<char>,
    bridge: Seq<u8>,
    network: Seq<u8>,
    config: Config,
)
    ensures
        ({
            let file = zone_spec(domain, bridge, network, config);
            &&& text::starts_with_spec(file, zone_head(domain, domain))
            &&& config.use_ipv4 ==> text::contains_spec(
                file,
                "\n@ A "@ + address::ipv4_text_spec(bridge) + "\n"@,
            )
            &&& config.use_ipv4 ==> text::contains_spec(
                file,
                "\nnetwork A "@ + address::ipv4_text_spec(network) + "\n"@,
            )
            &&& config.use_ipv6 ==> text::contains_spec(
                file,
                "\n@ AAAA "@ + (config.ipv6_prefix@ + config.bridge_ip6@) + "\n"@,
            )
            &&& config.use_ipv6 ==> text::contains_spec(
                file,
                "\nnetwork AAAA "@ + (config.ipv6_prefix@ + config.network_ip6@) + "\n"@,
            )
            &&& !config.use_ipv4 && !config.use_ipv6 ==> file == zone_head(domain, domain)
        }),
{
    broadcast use text::group_texts_within;

    reveal_strlit("\n@ A ");
    reveal_strlit("@ A ");
    reveal_strlit("\nnetwork A ");
    reveal_strlit("\n");
    reveal_strlit("\n@ AAAA ");
    reveal_strlit("@ AAAA ");
    reveal_strlit("\nnetwork AAAA ");
    reveal_strlit(".\n");
    let head = zone_head(domain, domain);
    assert(head.take(head.len() as int) =~= head);
    assert(head.skip(head.len() - 1) =~= "\n"@);
    assert("\n"@.take(1) =~= "\n"@);
    let one = address::ipv4_text_spec(bridge);
    let other = address::ipv4_text_spec(network);
    let one6 = config.ipv6_prefix@ + config.bridge_ip6@;
    let other6 = config.ipv6_prefix@ + config.network_ip6@;
    let first = if config.use_ipv4 {
        let a = head + "@ A "@;
        assert(a.skip(a.len() - 5) =~= "\n@ A "@);
        assert("\nnetwork A "@.take(1) =~= "\n"@);
        text::lemma_contains_across(a, one, "\nnetwork A "@, "\n@ A "@, "\n"@);
        let b = a + one + "\nnetwork A "@;
        assert("\nnetwork A "@.skip(0) =~= "\nnetwork A "@);
        text::lemma_contains_across(b, other, "\n"@, "\nnetwork A "@, "\n"@);
        b + other + "\n"@
    } else {
        head
    };
    if config.use_ipv6 {
        assert(first.skip(first.len() - 1) =~= "\n"@);
        let a = first + "@ AAAA "@;
        assert(a.skip(a.len() - 8) =~= "\n@ AAAA "@);
        assert("\nnetwork AAAA "@.take(1) =~= "\n"@);
        text::lemma_contains_across(a, one6, "\nnetwork AAAA "@, "\n@ AAAA "@, "\n"@);
        let b = a + one6 + "\nnetwork AAAA "@;
        assert("\nnetwork AAAA "@.skip(0) =~= "\nnetwork AAAA "@);
        text::lemma_contains_across(b, other6, "\n"@, "\nnetwork AAAA "@, "\n"@);
        assert(b + other6 + "\n"@ =~= zone_spec(domain, bridge, network, config));
    }
}

/// The resolver of the host listens to itself and, in each address family in use, to the
/// bridge, and answers everyone of the family; it takes up where the names of the network are
/// looked up.
pub proof fn law_resolver_listens_to_the_bridge(
    bridge: Seq<u8>,
    bridge6: Seq<char>,
    config: Config,
)
    ensures
        ({
            let file = unbound_spec(bridge, bridge6, config);
            &&& text::contains_spec(file, "  interface: 127.0.0.1\n"@)
            &&& config.use_ipv4 ==> text::contains_spec(
                file,
                "  interface: "@ + address::ipv4_text_spec(bridge) + "\n"@,
            )
            &&& config.use_ipv6 ==> text::contains_spec(file, "  interface: "@ + bridge6 + "\n"@)
            &&& text::contains_spec(file, "  access-control: 127.0.0.0/8 allow\n"@)
            &&& config.use_ipv4 ==> text::contains_spec(
                file,
                "  access-control: 0.0.0.0/0 allow_snoop\n"@,
            )
            &&& config.use_ipv6 ==> text::contains_spec(
                file,
                "  access-control: ::0/0 allow_snoop\n"@,
            )
            &&& text::contains_spec(file, "include: /var/unbound/priosun.conf\n"@)
            &&& text::contains_spec(file, "include: /var/unbound/control.conf\n"@)
            &&& text::contains_spec(file, "include: /var/unbound/forward.conf\n"@)
        }),
{
    broadcast use text::group_texts_within;

    reveal_strlit("  val-permissive-mode: yes\n\ninclude: /var/unbound/priosun.conf\ninclude: /var/unbound/control.conf\ninclude: /var/unbound/forward.conf\ninclude: /var/unbound/lan-zones.conf\ninclude: /var/unbound/conf.d/*.conf\n");
    reveal_strlit("include: /var/unbound/priosun.conf\n");
    reveal_strlit("include: /var/unbound/control.conf\n");
    reveal_strlit("include: /var/unbound/forward.conf\n");
    assert(UNBOUND_CLOSE@.skip(28).take(35) =~= "include: /var/unbound/priosun.conf\n"@);
    assert(text::starts_with_spec(UNBOUND_CLOSE@.skip(28), "include: /var/unbound/priosun.conf\n"@));
    assert(UNBOUND_CLOSE@.skip(63).take(35) =~= "include: /var/unbound/control.conf\n"@);
    assert(text::starts_with_spec(UNBOUND_CLOSE@.skip(63), "include: /var/unbound/control.conf\n"@));
    assert(UNBOUND_CLOSE@.skip(98).take(35) =~= "include: /var/unbound/forward.conf\n"@);
    assert(text::starts_with_spec(UNBOUND_CLOSE@.skip(98), "include: /var/unbound/forward.conf\n"@));
    let own = "  interface: 127.0.0.1\n"@;
    let one = "  interface: "@ + address::ipv4_text_spec(bridge) + "\n"@;
    let other = "  interface: "@ + bridge6 + "\n"@;
    assert(own + "  interface: "@ + address::ipv4_text_spec(bridge) + "\n"@ =~= own + one);
    let first = if config.use_ipv4 {
        own + one
    } else {
        own
    };
    assert(first + "  interface: "@ + bridge6 + "\n"@ =~= first + other);
}

/// How Unbound is told to look up a zone at a server.
pub open spec fn looked_up(zone: Seq<char>, server: Seq<char>) -> Seq<char> {
    "forward-zone:\n  name: \""@ + zone + "\"\n  forward-addr: "@ + server + "\n"@
}

/// The names of the domain and of the reverse zone of each address family in use are looked up
/// at the network jail, by an address of a family in use.
pub proof fn law_own_names_are_asked_of_the_jail(
    domain: Seq<char>,
    bridge: Seq<u8>,
    network: Seq<u8>,
    network6: Ipv6Model,
    config: Config,
)
    ensures
        ({
            let file = forwards_spec(domain, bridge, network, network6, config);
            let server = address::ipv4_text_spec(network);
            &&& config.use_ipv4 ==> text::contains_spec(file, looked_up(domain, server))
            &&& !config.use_ipv4 ==> text::contains_spec(file, looked_up(domain, network6.text))
            &&& config.use_ipv4 ==> text::contains_spec(
                file,
                looked_up(address::ipv4_zone_spec(bridge), server),
            )
            &&& config.use_ipv6 ==> text::contains_spec(
                file,
                looked_up(address::ipv6_zone_spec(network6.segments), network6.text),
            )
        }),
{
    broadcast use text::group_texts_within;

}

/// Every server that other names are forwarded to is named, in a line of its own, and they are
/// asked for all names.
pub proof fn law_every_server_is_forwarded_to(servers: Seq<Seq<char>>)
    ensures
        text::starts_with_spec(forward_lines(servers), "forward-zone:\n  name: \".\"\n"@),
        forall|i: int|
            0 <= i < servers.len() ==> text::contains_spec(
                forward_lines(servers),
                "  forward-addr: "@ + #[trigger] servers[i] + "\n"@,
            ),
    decreases servers.len(),
{
    broadcast use text::group_texts_within;

    if servers.len() == 0 {
        let start = "forward-zone:\n  name: \".\"\n"@;
        assert(start.take(start.len() as int) =~= start);
    } else {
        let front = servers.drop_last();
        law_every_server_is_forwarded_to(front);
        let last = "  forward-addr: "@ + servers.last() + "\n"@;
        assert(forward_lines(servers) =~= forward_lines(front) + last);
        assert forall|i: int| 0 <= i < servers.len() implies text::contains_spec(
            forward_lines(servers),
            "  forward-addr: "@ + #[trigger] servers[i] + "\n"@,
        ) by {
            if i < front.len() {
                assert(front[i] == servers[i]);
            }
        }
    }
}

proof fn lemma_named_server(lines: Seq<Seq<char>>, server: Seq<char>)
    ensures
        named_servers(lines).contains(server) <==> exists|i: int|
            0 <= i < lines.len() && #[trigger] named_server(lines[i]) == Some(server),
    decreases lines.len(),
{
    if lines.len() > 0 {
        let front = lines.drop_last();
        lemma_named_server(front, server);
        let found = named_servers(front);
        if named_servers(lines).contains(server) {
            let i = named_servers(lines).index_of(server);
            if i < found.len() {
                assert(found[i] == server);
                let j = choose|j: int|
                    0 <= j < front.len() && #[trigger] named_server(front[j]) == Some(server);
                assert(named_server(lines[j]) == Some(server));
            } else {
                assert(named_server(lines[lines.len() - 1]) == Some(server));
            }
        }
        if exists|i: int|
            0 <= i < lines.len() && #[trigger] named_server(lines[i]) == Some(server) {
            let i = choose|i: int|
                0 <= i < lines.len() && #[trigger] named_server(lines[i]) == Some(server);
            if i < front.len() {
                assert(named_server(front[i]) == Some(server));
                let j = found.index_of(server);
                assert(named_servers(lines)[j] == server);
            } else {
                assert(named_servers(lines)[found.len() as int] == server);
            }
        }
    }
}

/// Whether a line names this name server.
pub open spec fn is_named(lines: Seq<Seq<char>>, server: Seq<char>) -> bool {
    exists|i: int|
        0 <= i < lines.len() && text::starts_with_spec(#[trigger] lines[i], "nameserver "@)
            && text::trim_spec(lines[i].skip(11)) == server
}

/// Other names are forwarded to the servers that the configuration sets; without any, to those
/// of the resolver configuration, of which the host itself is none; and without those, to a
/// public one. There is always a server.
pub proof fn law_upstream_servers_are_chosen(config: Config, content: Seq<char>, server: Seq<char>)
    ensures
        ({
            let servers = upstream_servers(config, Some(content));
            &&& servers.len() > 0
            &&& config.dns_override@.len() > 0 ==> servers == text::views(config.dns_override@)
            &&& config.dns_override@.len() == 0 && server != "1.1.1.1"@ ==> (servers.contains(
                server,
            ) <==> server.len() > 0 && server != "127.0.0.1"@ && server != "::1"@ && is_named(
                text::lines_spec(content),
                server,
            ))
        }),
        config.dns_override@.len() > 0 ==> upstream_servers(config, None) == text::views(
            config.dns_override@,
        ),
        config.dns_override@.len() == 0 ==> upstream_servers(config, None) =~= seq!["1.1.1.1"@],
{
    reveal_strlit("nameserver ");
    let lines = text::lines_spec(content);
    let found = named_servers(lines);
    lemma_named_server(lines, server);
    if found.contains(server) {
        let i = choose|i: int|
            0 <= i < lines.len() && #[trigger] named_server(lines[i]) == Some(server);
        assert(text::starts_with_spec(lines[i], "nameserver "@));
        assert(is_named(lines, server));
    }
    if is_named(lines, server) {
        let i = choose|i: int|
            0 <= i < lines.len() && text::starts_with_spec(#[trigger] lines[i], "nameserver "@)
                && text::trim_spec(lines[i].skip(11)) == server;
        assert(server.len() > 0 && server != "127.0.0.1"@ && server != "::1"@ ==> named_server(
            lines[i],
        ) == Some(server));
    }
    assert(text::views(config.dns_override@).len() == config.dns_override@.len());
    if config.dns_override@.len() == 0 && found.len() == 0 {
        assert(!found.contains(server));
        let servers = upstream_servers(config, Some(content));
        assert(servers.len() == 1 && servers[0] == "1.1.1.1"@);
    }
}

/// DHCP is served exactly in the address families in use, and names are updated in any case;
/// the servers read the files that are written for them.
pub proof fn law_dhcp_serves_the_families(config: Config)
    ensures
        ({
            let file = keactrl_spec(config);
            &&& text::contains_spec(
                file,
                if config.use_ipv4 {
                    "\ndhcp4=yes\ndhcp6="@
                } else {
                    "\ndhcp4=no\ndhcp6="@
                },
            )
            &&& text::contains_spec(
                file,
                if config.use_ipv6 {
                    "\ndhcp6=yes\ndhcp_ddns=yes\n"@
                } else {
                    "\ndhcp6=no\ndhcp_ddns=yes\n"@
                },
            )
            &&& text::contains_spec(file, "kea_dhcp4_config_file=\"/usr/local/etc/kea/kea-dhcp4.conf\"\n"@)
            &&& text::contains_spec(file, "kea_dhcp6_config_file=\"/usr/local/etc/kea/kea-dhcp6.conf\"\n"@)
            &&& text::contains_spec(file, "kea_dhcp_ddns_config_file=\"/usr/local/etc/kea/kea-dhcp-ddns.conf\"\n"@)
        }),
{
    broadcast use text::group_texts_within;

    reveal_strlit("prefix=\"/usr/local\"\nexec_prefix=\"/usr/local\"\nkea_dhcp4_config_file=\"/usr/local/etc/kea/kea-dhcp4.conf\"\nkea_dhcp6_config_file=\"/usr/local/etc/kea/kea-dhcp6.conf\"\nkea_dhcp_ddns_config_file=\"/usr/local/etc/kea/kea-dhcp-ddns.conf\"\nkea_ctrl_agent_config_file=\"/usr/local/etc/kea/kea-ctrl-agent.conf\"\nkea_netconf_config_file=\"/usr/local/etc/kea/kea-netconf.conf\"\ndhcp4_srv=\"/usr/local/sbin/kea-dhcp4\"\ndhcp6_srv=\"/usr/local/sbin/kea-dhcp6\"\ndhcp_ddns_srv=\"/usr/local/sbin/kea-dhcp-ddns\"\nctrl_agent_srv=\"/usr/local/sbin/kea-ctrl-agent\"\nnetconf_srv=\"/usr/local/sbin/kea-netconf\"\ndhcp4=");
    reveal_strlit("kea_dhcp4_config_file=\"/usr/local/etc/kea/kea-dhcp4.conf\"\n");
    reveal_strlit("kea_dhcp6_config_file=\"/usr/local/etc/kea/kea-dhcp6.conf\"\n");
    reveal_strlit("kea_dhcp_ddns_config_file=\"/usr/local/etc/kea/kea-dhcp-ddns.conf\"\n");
    reveal_strlit("\ndhcp4=");
    reveal_strlit("\ndhcp6=");
    reveal_strlit("yes");
    reveal_strlit("no");
    reveal_strlit("\ndhcp_ddns=yes\nctrl_agent=no\nnetconf=no\nkea_verbose=no\n");
    reveal_strlit("\ndhcp4=yes\ndhcp6=");
    reveal_strlit("\ndhcp4=no\ndhcp6=");
    reveal_strlit("\ndhcp6=yes\ndhcp_ddns=yes\n");
    reveal_strlit("\ndhcp6=no\ndhcp_ddns=yes\n");
    reveal_strlit("\ndhcp_ddns=yes\n");
    assert(KEACTRL@.skip(568) =~= "\ndhcp4="@);
    assert(KEACTRL@.skip(45).take(58) =~= "kea_dhcp4_config_file=\"/usr/local/etc/kea/kea-dhcp4.conf\"\n"@);
    assert(text::starts_with_spec(KEACTRL@.skip(45), "kea_dhcp4_config_file=\"/usr/local/etc/kea/kea-dhcp4.conf\"\n"@));
    assert(KEACTRL@.skip(103).take(58) =~= "kea_dhcp6_config_file=\"/usr/local/etc/kea/kea-dhcp6.conf\"\n"@);
    assert(text::starts_with_spec(KEACTRL@.skip(103), "kea_dhcp6_config_file=\"/usr/local/etc/kea/kea-dhcp6.conf\"\n"@));
    assert(KEACTRL@.skip(161).take(66) =~= "kea_dhcp_ddns_config_file=\"/usr/local/etc/kea/kea-dhcp-ddns.conf\"\n"@);
    assert(text::starts_with_spec(KEACTRL@.skip(161), "kea_dhcp_ddns_config_file=\"/usr/local/etc/kea/kea-dhcp-ddns.conf\"\n"@));
    let first = yes_spec(config.use_ipv4);
    let second = yes_spec(config.use_ipv6);
    let middle = "\ndhcp6="@;
    let end = "\ndhcp_ddns=yes\nctrl_agent=no\nnetconf=no\nkea_verbose=no\n"@;
    assert(middle.take(7) =~= middle);
    assert(end.take(15) =~= "\ndhcp_ddns=yes\n"@);
    text::lemma_contains_across(KEACTRL@, first, middle, "\ndhcp4="@, middle);
    let a = KEACTRL@ + first + middle;
    assert(a.skip(a.len() - 7) =~= middle);
    text::lemma_contains_across(a, second, end, middle, "\ndhcp_ddns=yes\n"@);
    if config.use_ipv4 {
        assert("\ndhcp4="@ + first + middle =~= "\ndhcp4=yes\ndhcp6="@);
    } else {
        assert("\ndhcp4="@ + first + middle =~= "\ndhcp4=no\ndhcp6="@);
    }
    if config.use_ipv6 {
        assert(middle + second + "\ndhcp_ddns=yes\n"@ =~= "\ndhcp6=yes\ndhcp_ddns=yes\n"@);
    } else {
        assert(middle + second + "\ndhcp_ddns=yes\n"@ =~= "\ndhcp6=no\ndhcp_ddns=yes\n"@);
    }
}

/// Kea and Knot share the key of the name updates, under one name.
pub proof fn law_key_is_shared(key: Seq<char>)
    ensures
        text::contains_spec(
            knot_key_spec(key),
            "  - id: ddns\n    algorithm: hmac-sha256\n    secret: \""@ + key + "\"\n"@,
        ),
        text::contains_spec(
            DDNS_OPEN@,
            "\"tsig-keys\": [{ \"name\": \"ddns\", \"algorithm\": \"hmac-sha256\", \"secret-file\": \"/usr/local/etc/kea/ddns.key\" }]"@,
        ),
{
    broadcast use text::group_texts_within;

    reveal_strlit("{\n  \"DhcpDdns\": {\n    \"control-socket\": { \"socket-type\": \"unix\", \"socket-name\": \"kea-ddns-ctrl-socket\" },\n    \"tsig-keys\": [{ \"name\": \"ddns\", \"algorithm\": \"hmac-sha256\", \"secret-file\": \"/usr/local/etc/kea/ddns.key\" }],\n    \"forward-ddns\": { \"ddns-domains\": [{ \"name\": \"");
    reveal_strlit("key:\n  - id: ddns\n    algorithm: hmac-sha256\n    secret: \"");
    reveal_strlit("  - id: ddns\n    algorithm: hmac-sha256\n    secret: \"");
    reveal_strlit("\"tsig-keys\": [{ \"name\": \"ddns\", \"algorithm\": \"hmac-sha256\", \"secret-file\": \"/usr/local/etc/kea/ddns.key\" }]");
    reveal_strlit("\"\n");
    assert(DDNS_OPEN@.skip(110).take(107) =~= "\"tsig-keys\": [{ \"name\": \"ddns\", \"algorithm\": \"hmac-sha256\", \"secret-file\": \"/usr/local/etc/kea/ddns.key\" }]"@);
    assert(text::starts_with_spec(DDNS_OPEN@.skip(110), "\"tsig-keys\": [{ \"name\": \"ddns\", \"algorithm\": \"hmac-sha256\", \"secret-file\": \"/usr/local/etc/kea/ddns.key\" }]"@));
    assert("key:\n  - id: ddns\n    algorithm: hmac-sha256\n    secret: \""@.skip(5) =~= "  - id: ddns\n    algorithm: hmac-sha256\n    secret: \""@);
    assert("\"\n"@.take(2) =~= "\"\n"@);
    text::lemma_contains_across("key:\n  - id: ddns\n    algorithm: hmac-sha256\n    secret: \""@, key, "\"\n"@, "  - id: ddns\n    algorithm: hmac-sha256\n    secret: \""@, "\"\n"@);
}

/// When a lease changes, the script that forgets its names is run by both DHCP servers.
pub proof fn law_leases_flush_the_cache(domain: Seq<char>, hostname: Seq<char>, bridge: Seq<u8>, config: Config)
    ensures
        text::contains_spec(
            dhcp4_spec(domain, hostname, bridge),
            "\"name\": \"/usr/local/share/kea/scripts/priosun-unbound-flush\""@,
        ),
        text::contains_spec(
            dhcp6_spec(domain, config),
            "\"name\": \"/usr/local/share/kea/scripts/priosun-unbound-flush\""@,
        ),
        text::contains_spec(
            dhcp4_spec(domain, hostname, bridge),
            "\"interfaces\": [ \"eth0\" ]"@,
        ),
        text::contains_spec(dhcp6_spec(domain, config), "\"interfaces\": [ \"eth0\" ]"@),
{
    broadcast use text::group_texts_within;

    reveal_strlit("\n    \"hooks-libraries\": [{\n      \"library\": \"/usr/local/lib/kea/hooks/libdhcp_run_script.so\",\n      \"parameters\": {\n        \"name\": \"/usr/local/share/kea/scripts/priosun-unbound-flush\",\n        \"sync\": false\n      }\n    }],");
    reveal_strlit("{\n    \"Dhcp4\": {\n    \"interfaces-config\": { \"interfaces\": [ \"eth0\" ] },\n    ");
    reveal_strlit("{\n    \"Dhcp6\": {\n    \"interfaces-config\": { \"interfaces\": [ \"eth0\" ] },\n    ");
    reveal_strlit("\"name\": \"/usr/local/share/kea/scripts/priosun-unbound-flush\"");
    reveal_strlit("\"interfaces\": [ \"eth0\" ]");
    assert(HOOKS@.skip(124).take(60) =~= "\"name\": \"/usr/local/share/kea/scripts/priosun-unbound-flush\""@);
    assert(text::starts_with_spec(HOOKS@.skip(124), "\"name\": \"/usr/local/share/kea/scripts/priosun-unbound-flush\""@));
    assert(DHCP4_OPEN@.skip(44).take(24) =~= "\"interfaces\": [ \"eth0\" ]"@);
    assert(text::starts_with_spec(DHCP4_OPEN@.skip(44), "\"interfaces\": [ \"eth0\" ]"@));
    assert(DHCP6_OPEN@.skip(44).take(24) =~= "\"interfaces\": [ \"eth0\" ]"@);
    assert(text::starts_with_spec(DHCP6_OPEN@.skip(44), "\"interfaces\": [ \"eth0\" ]"@));
}

} // verus!
