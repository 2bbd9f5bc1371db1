//! Addresses, interfaces, and the managed network.

use priosun::address::{
    ipv4_reverse_zone, ipv4_text, ipv6_reverse_zone, network_text, parse_ipv4, Ipv6Address,
};
use priosun::config::Config;
use priosun::error::Error;
use priosun::nameservice::{
    ddns, dhcp4, dhcp6, forwards, keactrl, knot, knot_key, trim_colons, unbound,
    unbound_flush_hook, upstream_forward_config, zone, zone_start,
};
use priosun::net::{
    address_outcome, bridge_add, bridge_delete, bridge_message, create, ensure_bridge,
    interface_module, interface_name, is_listed, name_pair, needs_bridge, read_interface_name, refusal,
    rename_in_jail, request_number, set_ipv4, set_ipv6, Creation, InterfaceRequest,
};
use priosun::network::{
    bridge6_text, configure_host_network, configure_host_unbound, configure_network,
    configure_services, domain,
    export_projects, generate_ddns_key, host_hostname, init, install_packages, key_command,
    mount_host_unbound, network6_text, network_jail, services, Stage, NETWORK_JAIL,
};
use priosun::plan::{Action, Plan};
use priosun::snapshot::Snapshot;

fn line(action: &Action) -> String {
    match action {
        Action::Message(text) => format!("say {text}"),
        Action::Run(command) => format!("run {} {}", command.program, command.args.join(" ")),
        Action::CreateDir(path) => format!("mkdir {path}"),
        Action::Write { path, .. } => format!("write {path}"),
        Action::SetMode { path, mode } => format!("mode {path} {mode:o}"),
        Action::Append { path, text, create } => format!("append {path} {text:?} {create}"),
        Action::InterfaceUp(interface) => format!("up {interface}"),
        Action::InterfaceRename { from, to } => format!("rename {from} {to}"),
        Action::SetIpv4 { interface, address } => format!("ipv4 {interface} {address}"),
        Action::SetIpv6 { interface, address } => format!("ipv6 {interface} {address}"),
        other => format!("{other:?}"),
    }
}

fn shown(plan: &Plan) -> Vec<String> {
    plan.steps.iter().map(|step| line(&step.action)).collect()
}

fn written(plan: &Plan, wanted: &str) -> String {
    plan.steps
        .iter()
        .find_map(|step| match &step.action {
            Action::Write { path, text } if path == wanted => Some(text.clone()),
            _ => None,
        })
        .unwrap()
}

fn message<T>(result: Result<T, Error>) -> String {
    match result {
        Ok(_) => panic!("there is no error"),
        Err(error) => error.message,
    }
}

fn config() -> Config {
    let mut config = Config::default();
    config.use_ipv4 = true;
    config.use_ipv6 = true;
    config.bridge = "priosun0".to_string();
    config.bridge_ip = "192.0.2.1".to_string();
    config.bridge_ip6 = "1".to_string();
    config.network_ip = "192.0.2.2".to_string();
    config.network_ip6 = "2".to_string();
    config.ipv6_prefix = "2001:db8::".to_string();
    config.bridge_members = vec!["em0".to_string(), "em1".to_string()];
    config.domain = " example.org ".to_string();
    config.dns_override = Vec::new();
    config.projects_dir = None;
    config
}

fn host() -> Result<String, Error> {
    Ok("host.example".to_string())
}

fn failed(reason: &str) -> Error {
    Error::new(reason.to_string())
}

fn network6() -> Result<Ipv6Address, Error> {
    Ok(Ipv6Address {
        segments: [0x2001, 0xdb8, 0, 0, 0, 0, 0, 2],
        text: "2001:db8::2".to_string(),
    })
}

fn bridge6() -> Result<Ipv6Address, Error> {
    Ok(Ipv6Address {
        segments: [0x2001, 0xdb8, 0, 0, 0, 0, 0, 1],
        text: "2001:db8::1".to_string(),
    })
}

#[test]
fn ipv4_addresses_are_read() {
    assert_eq!(parse_ipv4("192.0.2.1").unwrap(), [192, 0, 2, 1]);
    assert_eq!(parse_ipv4("255.255.255.255").unwrap(), [255, 255, 255, 255]);
    for bad in ["", "192.0.2", "192.0.2.1.3", "256.0.0.1", "01.2.3.4", "1.2.3.", "a.b.c.d", "1.2.3.4 "] {
        assert_eq!(message(parse_ipv4(bad)), "invalid IPv4 address syntax");
    }
    assert_eq!(ipv4_text(&[192, 0, 2, 1]), "192.0.2.1");
    assert_eq!(network_text(&[192, 0, 2, 1]), "192.0.2");
}

#[test]
fn one_network_has_one_reverse_zone() {
    assert_eq!(ipv4_reverse_zone(&[192, 0, 2, 1]), "2.0.192.in-addr.arpa");
    assert_eq!(ipv4_reverse_zone(&[192, 0, 2, 200]), "2.0.192.in-addr.arpa");
    let zone = "0.0.0.0.0.0.0.0.8.b.d.0.1.0.0.2.ip6.arpa";
    assert_eq!(ipv6_reverse_zone(&[0x2001, 0xdb8, 0, 0, 0, 0, 0, 2]), zone);
    assert_eq!(ipv6_reverse_zone(&[0x2001, 0xdb8, 0, 0, 1, 2, 3, 4]), zone);
}

#[test]
fn interface_name_reads_back() {
    let bytes = interface_name("epair3a").unwrap();
    assert_eq!(&bytes[..8], b"epair3a\0");
    assert_eq!(read_interface_name(bytes).unwrap(), "epair3a");
    assert_eq!(interface_name("abcdefghijklmno").unwrap(), *b"abcdefghijklmno\0");
    assert_eq!(message(interface_name("abcdefghijklmnop")), "interface name is too long");
    assert_eq!(
        message(interface_name("a\0b")),
        "nul byte found in provided data at position: 1"
    );
}

#[test]
fn interface_name_of_the_kernel_is_utf8() {
    assert_eq!(read_interface_name(*b"abcdefghijklmnop").unwrap(), "abcdefghijklmnop");
    let bytes = [0xff, 0, 0, 0, 0, 0, 0, 0, 0, 0, 0, 0, 0, 0, 0, 0];
    assert_eq!(
        message(read_interface_name(bytes)),
        "invalid utf-8 sequence of 1 bytes from index 0"
    );
}

#[test]
fn request_numbers_are_those_of_the_kernel() {
    assert_eq!(request_number(InterfaceRequest::SetFlags, 32), 0x8020_6910);
    assert_eq!(request_number(InterfaceRequest::GetFlags, 32), 0xc020_6911);
    assert_eq!(request_number(InterfaceRequest::SetIpv4, 68), 0x8044_692b);
    assert_eq!(request_number(InterfaceRequest::SetIpv6, 136), 0x8088_691b);
    assert_eq!(request_number(InterfaceRequest::Rename, 32), 0x8020_6928);
    assert_eq!(request_number(InterfaceRequest::Destroy, 32), 0x8020_6979);
    assert_eq!(request_number(InterfaceRequest::Create, 32), 0xc020_697c);
    assert_eq!(request_number(InterfaceRequest::AddGroup, 40), 0x8028_6987);
    assert_eq!(request_number(InterfaceRequest::Driver, 40), 0x8028_697b);
    assert_eq!(request_number(InterfaceRequest::MoveToJail, 32), 0xc020_695a);
}

#[test]
fn refused_requests_are_named() {
    assert_eq!(
        refusal(InterfaceRequest::Destroy, "busy").message,
        "destroy interface: busy"
    );
    assert_eq!(
        refusal(InterfaceRequest::Driver, "busy").message,
        "change bridge membership: busy"
    );
    assert_eq!(
        refusal(InterfaceRequest::MoveToJail, "busy").message,
        "move interface to jail: busy"
    );
}

#[test]
fn interface_creation_is_decided() {
    assert_eq!(interface_module("bridge"), Some("if_bridge"));
    assert_eq!(interface_module("epair"), Some("if_epair"));
    assert_eq!(interface_module("tap"), Some("if_tap"));
    assert_eq!(interface_module("vlan"), None);
    assert_eq!(create("tap", Creation::Asking, true), Creation::Created);
    assert_eq!(create("tap", Creation::Asking, false), Creation::Checking);
    assert_eq!(create("vlan", Creation::Asking, false), Creation::Refused);
    assert_eq!(create("tap", Creation::Checking, true), Creation::AskingAgain);
    assert_eq!(create("tap", Creation::Checking, false), Creation::Loading);
    assert_eq!(create("tap", Creation::Loading, false), Creation::AskingAgain);
    assert_eq!(create("tap", Creation::AskingAgain, true), Creation::Created);
    assert_eq!(create("tap", Creation::AskingAgain, false), Creation::Refused);
}

#[test]
fn interfaces_are_found_by_name() {
    let names = vec![b"lo0".to_vec(), b"em0".to_vec()];
    assert!(is_listed(&names, "em0"));
    assert!(!is_listed(&names, "em"));
    assert!(!is_listed(&Vec::new(), ""));
}

#[test]
fn pairs_of_names_are_both_checked() {
    let (first, second) = name_pair("em0", "web").unwrap();
    assert_eq!(&first[..4], b"em0\0");
    assert_eq!(&second[..4], b"web\0");
    assert_eq!(message(name_pair("abcdefghijklmnop", "x")), "interface name is too long");
    assert_eq!(message(name_pair("x", "abcdefghijklmnop")), "interface name is too long");
}

#[test]
fn bridge_requests_differ_by_their_number() {
    let request = bridge_add("bridge0", "tap7").unwrap();
    assert_eq!((&request.bridge[..8], &request.member[..5]), (&b"bridge0\0"[..], &b"tap7\0"[..]));
    assert_eq!(request.number, 0);
    assert_eq!(bridge_delete("bridge0", "tap7").unwrap().number, 1);
    assert_eq!(message(bridge_add("bridge0", "abcdefghijklmnop")), "interface name is too long");
}

#[test]
fn ipv4_request_is_laid_out_for_the_kernel() {
    let request = set_ipv4("bridge0", 2, "192.0.2.1").unwrap();
    assert_eq!(request.len(), 68);
    assert_eq!(&request[..8], b"bridge0\0");
    assert_eq!(&request[16..24], &[16, 2, 0, 0, 192, 0, 2, 1]);
    assert_eq!(&request[32..40], &[16, 2, 0, 0, 255, 255, 255, 255]);
    assert_eq!(&request[48..56], &[16, 2, 0, 0, 255, 255, 255, 0]);
    assert!(request[24..32].iter().chain(&request[56..]).all(|byte| *byte == 0));
    assert_eq!(message(set_ipv4("bridge0", 2, "x")), "invalid IPv4 address syntax");
    assert_eq!(
        message(set_ipv4("abcdefghijklmnop", 2, "192.0.2.1")),
        "interface name is too long"
    );
}

#[test]
fn ipv6_request_is_laid_out_for_the_kernel() {
    let address = [0x20, 1, 0x0d, 0xb8, 0, 0, 0, 0, 0, 0, 0, 0, 0, 0, 0, 1];
    let request = set_ipv6("bridge0", 28, address).unwrap();
    assert_eq!(request.len(), 136);
    assert_eq!(&request[..8], b"bridge0\0");
    assert_eq!(&request[16..24], &[28, 28, 0, 0, 0, 0, 0, 0]);
    assert_eq!(&request[24..40], &address);
    assert!(request[44..72].iter().all(|byte| *byte == 0));
    assert_eq!(&request[72..80], &[28, 28, 0, 0, 0, 0, 0, 0]);
    assert!(request[80..88].iter().all(|byte| *byte == 0xff));
    assert!(request[88..104].iter().all(|byte| *byte == 0));
    assert_eq!(request.iter().skip(104).filter(|byte| **byte == 0xff).count(), 8);
    assert_eq!(&request[120..128], &[0xff; 8]);
}

#[test]
fn address_in_use_is_passed_over() {
    assert!(address_outcome(Ok(())).is_ok());
    assert!(address_outcome(Err(failed("set: Address already in use (os error 48)"))).is_ok());
    assert_eq!(message(address_outcome(Err(failed("set: denied")))), "set: denied");
}

#[test]
fn rename_in_a_jail_is_told_by_its_status() {
    assert!(rename_in_jail(Some(0)).is_ok());
    assert_eq!(message(rename_in_jail(Some(5))), "rename interface in jail failed");
    assert_eq!(message(rename_in_jail(None)), "rename interface in jail failed");
}

#[test]
fn bridge_is_named_and_addressed() {
    assert_eq!(bridge_message("priosun0"), "Starting bridge priosun0");
    let plan = ensure_bridge("priosun0", Some("192.0.2.1"), Some("2001:db8::1"), Some("bridge0"));
    assert_eq!(
        shown(&plan),
        vec![
            "rename bridge0 priosun0",
            "up priosun0",
            "ipv4 priosun0 192.0.2.1",
            "ipv6 priosun0 2001:db8::1",
        ]
    );
    assert_eq!(shown(&ensure_bridge("bridge0", None, None, Some("bridge0"))), vec!["up bridge0"]);
    assert_eq!(shown(&ensure_bridge("bridge0", None, None, None)), vec!["up bridge0"]);
}

#[test]
fn bridge_is_created_where_there_is_none() {
    let names = vec![b"lo0".to_vec(), b"priosun0".to_vec()];
    assert!(!needs_bridge(&names, "priosun0"));
    assert!(needs_bridge(&names, "priosun"));
    assert!(needs_bridge(&Vec::new(), "bridge0"));
}

#[test]
fn addresses_are_joined_to_their_prefix() {
    let mut config = config();
    config.ipv6_prefix = "2001:db8::".to_string();
    config.network_ip6 = "2".to_string();
    config.bridge_ip6 = "1".to_string();
    assert_eq!(network6_text(&config), "2001:db8::2");
    assert_eq!(bridge6_text(&config), "2001:db8::1");
}

#[test]
fn network_needs_an_address_family() {
    let stages = init(&config(), &Snapshot::new()).unwrap();
    assert_eq!(
        stages,
        vec![
            Stage::Bridge,
            Stage::CreateJail,
            Stage::InstallPackages,
            Stage::ConfigureNetwork,
            Stage::ConfigureServices,
            Stage::MountUnbound,
            Stage::StartJail,
            Stage::ConfigureUnbound,
            Stage::ExportProjects,
        ]
    );
    let mut none = config();
    none.use_ipv4 = false;
    none.use_ipv6 = false;
    assert_eq!(message(init(&none, &Snapshot::new())), "use_ipv4 or use_ipv6 must be enabled");
}

#[test]
fn network_jail_is_created_once() {
    let files = Snapshot::new().with("/var/priosun/jail/network", true);
    let stages = init(&config(), &files).unwrap();
    assert!(!stages.contains(&Stage::CreateJail));
    assert_eq!(stages.len(), 8);
    let options = network_jail();
    assert_eq!(options.name, NETWORK_JAIL);
    assert_eq!(NETWORK_JAIL, "network");
    assert!(!options.base && options.set.is_none() && options.from_base.is_none());
}

#[test]
fn bridge_of_the_host_is_set_up() {
    assert_eq!(
        shown(&configure_host_network(&config())),
        vec![
            "run sysrc cloned_interfaces+=bridge0 ifconfig_bridge0_name=priosun0 ifconfig_priosun0=inet 192.0.2.1 netmask 255.255.255.0 addm em0 addm em1 ifconfig_priosun0_ipv6=inet6 -ifdisabled auto_linklocal 2001:db8::1",
            "run service netif cloneup",
        ]
    );
}

#[test]
fn network_jail_gets_its_servers_and_its_address() {
    assert_eq!(
        shown(&install_packages()),
        vec![
            "say Installing Kea DHCP and Knot DNS",
            "run pkg -r /var/priosun/jail/network install -y kea knot3",
        ]
    );
    assert_eq!(
        shown(&configure_network(&config()).unwrap()),
        vec!["run sysrc -R /var/priosun/jail/network ifconfig_eth0=inet 192.0.2.2 netmask 255.255.255.0 defaultrouter=192.0.2.1 ifconfig_eth0_ipv6=inet6 2001:db8::2/64 ipv6_defaultrouter=2001:db8::1"]
    );
    let mut bad = config();
    bad.network_ip = "x".to_string();
    assert_eq!(
        message(configure_network(&bad)),
        "invalid network_ip: x: invalid IPv4 address syntax"
    );
    bad = config();
    bad.bridge_ip = "y".to_string();
    assert_eq!(
        message(configure_network(&bad)),
        "invalid bridge_ip: y: invalid IPv4 address syntax"
    );
    bad.use_ipv4 = false;
    bad.use_ipv6 = false;
    assert_eq!(
        shown(&configure_network(&bad).unwrap()),
        vec!["run sysrc -R /var/priosun/jail/network ifconfig_eth0=NONE ifconfig_eth0_ipv6=NONE"]
    );
}

#[test]
fn host_has_a_name() {
    assert_eq!(host_hostname(true, " host.example\n").unwrap(), "host.example");
    assert_eq!(message(host_hostname(false, "x")), "failed to read system hostname");
    assert_eq!(message(host_hostname(true, " \n")), "system hostname is empty");
}

#[test]
fn domain_is_configured_or_the_host_name() {
    assert_eq!(domain(&config(), &host()).unwrap(), "example.org");
    let mut unnamed = config();
    unnamed.domain = "  ".to_string();
    assert_eq!(domain(&unnamed, &host()).unwrap(), "host.example");
    assert_eq!(message(domain(&unnamed, &Err(failed("no name")))), "no name");
}

#[test]
fn key_is_taken_without_white_space() {
    let command = key_command();
    assert_eq!(command.program, "openssl");
    assert_eq!(command.args, vec!["rand", "-base64", "32"]);
    assert_eq!(generate_ddns_key(" ab cd\nef==\n").unwrap(), "abcdef==");
    assert_eq!(message(generate_ddns_key(" \n")), "openssl generated an empty DDNS key");
}

#[test]
fn service_inputs_are_checked() {
    let found = services(&config(), &host(), &network6()).unwrap();
    assert_eq!(found.domain, "example.org");
    assert_eq!(found.hostname, "host.example");
    assert_eq!(found.network, [192, 0, 2, 2]);
    assert_eq!(found.bridge, [192, 0, 2, 1]);
    assert_eq!(found.network6, [0x2001, 0xdb8, 0, 0, 0, 0, 0, 2]);
    assert_eq!(message(services(&config(), &Err(failed("no name")), &network6())), "no name");
    let mut bad = config();
    bad.network_ip = "x".to_string();
    assert_eq!(message(services(&bad, &host(), &network6())), "invalid IPv4 address syntax");
    assert_eq!(
        message(services(&config(), &host(), &Err(failed("invalid IPv6 address syntax")))),
        "invalid IPv6 address syntax"
    );
}

#[test]
fn services_are_configured_in_the_jail() {
    let found = services(&config(), &host(), &network6()).unwrap();
    let plan = configure_services(&found, &config(), "secret");
    let root = "/var/priosun/jail/network";
    let zone4 = "2.0.192.in-addr.arpa";
    let zone6 = "0.0.0.0.0.0.0.0.8.b.d.0.1.0.0.2.ip6.arpa";
    let hook = format!("{root}/usr/local/share/kea/scripts/priosun-unbound-flush");
    assert_eq!(
        shown(&plan),
        vec![
            format!("mkdir {root}/usr/local/etc/kea"),
            format!("mkdir {root}/usr/local/etc/knot"),
            format!("mkdir {root}/var/db/knot"),
            format!("write {root}/usr/local/etc/kea/ddns.key"),
            format!("mode {root}/usr/local/etc/kea/ddns.key 600"),
            format!("write {root}/usr/local/etc/knot/ddns-key.conf"),
            format!("mode {root}/usr/local/etc/knot/ddns-key.conf 600"),
            format!("mkdir {root}/usr/local/share/kea/scripts"),
            format!("write {hook}"),
            format!("mode {hook} 700"),
            format!("write {root}/usr/local/etc/kea/kea-dhcp4.conf"),
            format!("write {root}/usr/local/etc/kea/kea-dhcp6.conf"),
            format!("write {root}/usr/local/etc/kea/kea-dhcp-ddns.conf"),
            format!("write {root}/usr/local/etc/knot/knot.conf"),
            format!("write {root}/var/db/knot/example.org.zone"),
            format!("write {root}/var/db/knot/{zone4}.zone"),
            format!("write {root}/var/db/knot/{zone6}.zone"),
            format!("write {root}/usr/local/etc/kea/keactrl.conf"),
            format!("run sysrc -R {root} kea_enable=YES knot_enable=YES"),
        ]
    );
    assert_eq!(written(&plan, &format!("{root}/usr/local/etc/kea/ddns.key")), "secret\n");
    assert_eq!(
        written(&plan, &format!("{root}/var/db/knot/{zone4}.zone")),
        zone_start(zone4, "example.org")
    );
}

#[test]
fn zones_begin_with_their_authority() {
    assert_eq!(
        zone_start("z", "d"),
        "$ORIGIN z.\n$TTL 3600\n@ SOA network.d. hostmaster.d. ( 1 1h 15m 1w 1h )\n@ NS network.d.\n"
    );
    assert_eq!(
        zone("d", &[192, 0, 2, 1], &[192, 0, 2, 2], &config()),
        "$ORIGIN d.\n$TTL 3600\n@ SOA network.d. hostmaster.d. ( 1 1h 15m 1w 1h )\n@ NS network.d.\n@ A 192.0.2.1\nnetwork A 192.0.2.2\n@ AAAA 2001:db8::1\nnetwork AAAA 2001:db8::2\n"
    );
}

#[test]
fn dhcp4_names_its_pool() {
    let text = dhcp4("d", "h", &[192, 0, 2, 1]);
    assert!(text.starts_with("{\n    \"Dhcp4\": {\n    \"interfaces-config\": { \"interfaces\": [ \"eth0\" ] },\n    \n    \"hooks-libraries\": [{\n"));
    assert!(text.contains("    \"ddns-qualifying-suffix\": \"d\",\n"));
    assert!(text.contains("      \"subnet\": \"192.0.2.0/24\",\n      \"pools\": [{ \"pool\": \"192.0.2.100-192.0.2.200\" }],\n"));
    assert!(text.contains("        { \"name\": \"routers\", \"data\": \"192.0.2.1\" },\n        { \"name\": \"domain-name-servers\", \"data\": \"192.0.2.1\" },\n        { \"name\": \"domain-name\", \"data\": \"h\" }\n"));
    assert!(text.ends_with("      \"severity\": \"INFO\"\n    }]\n  }\n}\n"));
}

#[test]
fn dhcp6_names_its_pool() {
    assert_eq!(trim_colons("2001:db8::"), "2001:db8");
    assert_eq!(trim_colons(":"), "");
    let text = dhcp6("d", &config());
    assert!(text.contains("      \"subnet\": \"2001:db8/64\",\n      \"pools\": [{ \"pool\": \"2001:db8:100-2001:db8:ffff\" }],\n      \"option-data\": [{ \"name\": \"dns-servers\", \"data\": \"2001:db8::1\" }]\n"));
}

#[test]
fn ddns_names_the_zones_in_use() {
    let text = ddns("d", "z4", "z6", &config());
    assert!(text.contains("    \"forward-ddns\": { \"ddns-domains\": [{ \"name\": \"d.\", \"key-name\": \"ddns\", \"dns-servers\": [{ \"ip-address\": \"127.0.0.1\" }] }] },\n"));
    assert!(text.contains("    \"reverse-ddns\": { \"ddns-domains\": [{ \"name\": \"z4.\", \"key-name\": \"ddns\", \"dns-servers\": [{ \"ip-address\": \"127.0.0.1\" }] }, { \"name\": \"z6.\", \"key-name\": \"ddns\", \"dns-servers\": [{ \"ip-address\": \"::1\" }] }] },\n"));
    let mut one = config();
    one.use_ipv4 = false;
    assert!(!ddns("d", "z4", "z6", &one).contains("z4."));
}

#[test]
fn kea_runs_what_is_in_use() {
    let mut one = config();
    one.use_ipv6 = false;
    let text = keactrl(&one);
    assert!(text.starts_with("prefix=\"/usr/local\"\nexec_prefix=\"/usr/local\"\n"));
    assert!(text.ends_with("netconf_srv=\"/usr/local/sbin/kea-netconf\"\ndhcp4=yes\ndhcp6=no\ndhcp_ddns=yes\nctrl_agent=no\nnetconf=no\nkea_verbose=no\n"));
}

#[test]
fn knot_serves_the_zones_in_use() {
    assert_eq!(
        knot_key("secret"),
        "key:\n  - id: ddns\n    algorithm: hmac-sha256\n    secret: \"secret\"\n"
    );
    assert_eq!(
        knot("d", "z4", "z6", &[192, 0, 2, 2], &config()),
        "include: /usr/local/etc/knot/ddns-key.conf\n\nserver:\n  listen: [ 127.0.0.1@53, 192.0.2.2@53, 2001:db8::2@53 ]\n\nacl:\n  - id: ddns_acl\n    key: ddns\n    action: update\n\nlog:\n  - target: syslog\n    any: info\n\ndatabase:\n  storage: /var/db/knot\n\ntemplate:\n  - id: default\n    storage: /var/db/knot\n    file: %s.zone\n\nzone:\n  - domain: d.\n    file: d.zone\n    acl: ddns_acl\n  - domain: z4.\n    file: z4.zone\n    acl: ddns_acl\n  - domain: z6.\n    file: z6.zone\n    acl: ddns_acl\n"
    );
}

#[test]
fn flush_hook_knows_the_domain() {
    let text = unbound_flush_hook("example.org");
    assert!(text.starts_with("#!/bin/sh\n\ndomain=\"example.org\"\n\nflush_name() {\n"));
    assert!(text.ends_with("        ;;\nesac\n"));
    assert!(!text.contains("__DOMAIN__"));
    assert!(text.contains("eval \"address=\\${LEASES4_AT${i}_ADDRESS-}\"\n"));
}

#[test]
fn host_unbound_is_mounted_in_the_jail() {
    assert_eq!(
        shown(&mount_host_unbound()),
        vec![
            "mkdir /var/unbound",
            "mkdir /var/priosun/jail/network/var/unbound",
            "say Mounting /var/unbound at /var/priosun/jail/network/var/unbound",
            "run mount -t nullfs /var/unbound /var/priosun/jail/network/var/unbound",
        ]
    );
}

#[test]
fn unbound_listens_where_addresses_are_in_use() {
    let text = unbound(&[192, 0, 2, 1], "2001:db8::1", &config());
    assert_eq!(
        text,
        "server:\n  verbosity: 1\n  username: unbound\n  directory: /var/unbound\n  chroot: /var/unbound\n  pidfile: /var/run/local_unbound.pid\n  auto-trust-anchor-file: /var/unbound/root.key\n  root-hints: /var/unbound/root.hints\n  interface: 127.0.0.1\n  interface: 192.0.2.1\n  interface: 2001:db8::1\n  access-control: 127.0.0.0/8 allow\n  access-control: 0.0.0.0/0 allow_snoop\n  access-control: ::0/0 allow_snoop\n  val-permissive-mode: yes\n\ninclude: /var/unbound/priosun.conf\ninclude: /var/unbound/control.conf\ninclude: /var/unbound/forward.conf\ninclude: /var/unbound/lan-zones.conf\ninclude: /var/unbound/conf.d/*.conf\n"
    );
}

#[test]
fn managed_zones_are_forwarded() {
    let network = network6().unwrap();
    assert_eq!(
        forwards("d", &[192, 0, 2, 1], &[192, 0, 2, 2], &network, &config()),
        "forward-zone:\n  name: \"d\"\n  forward-addr: 192.0.2.2\n\nforward-zone:\n  name: \"2.0.192.in-addr.arpa\"\n  forward-addr: 192.0.2.2\n\nforward-zone:\n  name: \"0.0.0.0.0.0.0.0.8.b.d.0.1.0.0.2.ip6.arpa\"\n  forward-addr: 2001:db8::2\n"
    );
    let mut one = config();
    one.use_ipv4 = false;
    let text = forwards("d", &[192, 0, 2, 1], &[192, 0, 2, 2], &network, &one);
    assert!(text.starts_with("forward-zone:\n  name: \"d\"\n  forward-addr: 2001:db8::2\n"));
}

#[test]
fn other_names_are_asked_upstream() {
    let resolver = "# comment\nnameserver 127.0.0.1\nnameserver ::1\nnameserver  198.51.100.1 \nnameserver\nsearch x\nnameserver 198.51.100.2\n";
    assert_eq!(
        upstream_forward_config(&config(), Some(resolver)),
        "forward-zone:\n  name: \".\"\n  forward-addr: 198.51.100.1\n  forward-addr: 198.51.100.2\n"
    );
    assert_eq!(
        upstream_forward_config(&config(), None),
        "forward-zone:\n  name: \".\"\n  forward-addr: 1.1.1.1\n"
    );
    let mut chosen = config();
    chosen.dns_override = vec!["9.9.9.9".to_string()];
    assert_eq!(
        upstream_forward_config(&chosen, Some(resolver)),
        "forward-zone:\n  name: \".\"\n  forward-addr: 9.9.9.9\n"
    );
}

#[test]
fn host_unbound_is_configured() {
    let files = Snapshot::new();
    let plan = configure_host_unbound(&config(), &host(), &bridge6(), &network6(), &files, &None);
    let plan = plan.unwrap();
    assert_eq!(
        shown(&plan),
        vec![
            "say Configuring host Unbound",
            "mkdir /var/unbound/conf.d",
            "mkdir /var/unbound/zones",
            "run fetch -o /var/unbound/root.hints https://www.internic.net/domain/named.cache",
            "run sysrc local_unbound_enable=YES local_unbound_tls=NO local_unbound_svcj=YES",
            "write /var/unbound/unbound.conf",
            "write /var/unbound/priosun.conf",
            "write /var/unbound/control.conf",
            "write /var/unbound/lan-zones.conf",
            "write /var/unbound/forward.conf",
            "write /etc/resolvconf.conf",
            "run chown -R unbound:unbound /var/unbound",
            "run service local_unbound restart",
            "run resolvconf -u",
        ]
    );
    let hints = Snapshot::new().with("/var/unbound/root.hints", false);
    let plan = configure_host_unbound(&config(), &host(), &bridge6(), &network6(), &hints, &None);
    assert!(!shown(&plan.unwrap()).iter().any(|step| step.starts_with("run fetch")));
}

#[test]
fn host_unbound_errors_are_told_apart() {
    let files = Snapshot::new();
    let bad6 = || Err(failed("invalid IPv6 address syntax"));
    let result = configure_host_unbound(&config(), &host(), &bad6(), &network6(), &files, &None);
    assert_eq!(message(result), "invalid IPv6 address syntax");
    let mut bad = config();
    bad.bridge_ip = "x".to_string();
    let result = configure_host_unbound(&bad, &host(), &bridge6(), &network6(), &files, &None);
    assert_eq!(message(result), "invalid IPv4 address syntax");
}

#[test]
fn unreadable_resolver_matters_where_no_servers_are_chosen() {
    let files = Snapshot::new();
    let unreadable = Some(Err(failed("denied")));
    let plan =
        configure_host_unbound(&config(), &host(), &bridge6(), &network6(), &files, &unreadable);
    assert!(matches!(
        &plan.unwrap().steps.last().unwrap().action,
        Action::Fail(reason) if reason == "denied"
    ));
    let mut chosen = config();
    chosen.dns_override = vec!["9.9.9.9".to_string()];
    let plan =
        configure_host_unbound(&chosen, &host(), &bridge6(), &network6(), &files, &unreadable);
    assert_eq!(
        written(&plan.unwrap(), "/var/unbound/forward.conf"),
        "forward-zone:\n  name: \".\"\n  forward-addr: 9.9.9.9\n"
    );
}

#[test]
fn projects_are_exported_to_the_network() {
    let plan = export_projects(&config(), "").unwrap();
    assert_eq!(
        shown(&plan),
        vec![
            "run sysrc nfs_server_enable=YES",
            "append /etc/exports \"/var/empty -network=192.0.2.0/24\\n\" true",
            "append /etc/exports \"/var/empty -network=2001:db8::/64\\n\" true",
            "run service nfsd restart",
            "run service mountd onereload",
        ]
    );
    let mut chosen = config();
    chosen.use_ipv6 = false;
    chosen.projects_dir = Some("/home/projects".to_string());
    let known = "/home/projects -network=192.0.2.0/24\n";
    assert_eq!(
        shown(&export_projects(&chosen, known).unwrap()),
        vec![
            "run sysrc nfs_server_enable=YES",
            "run service nfsd restart",
            "run service mountd onereload",
        ]
    );
}
