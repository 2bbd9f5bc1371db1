//! Jails: their names, their releases, and what is planned for them.

use priosun::config::Config;
use priosun::dependency::{validate_all, ResourceKind, Stored};
use priosun::error::Error;
use priosun::jail::{
    arch_command, base_root_path, check, create, create_finish, create_packages, create_probes,
    create_root, create_stages,
    dataset, describe, destroy, destroy_base, interface_group, is_single_component, list,
    parse_version, path_exists, qualified_hostname, resolver, root_path, set_dependencies,
    set_enabled, start, start_inner, start_network, start_stages, stop, umount, unmount_devfs, valid_key,
    validate_name, Attempt, CreateOptions, CreateStage, Family, JailEntry, Nameserver, Probe, Recorded, StartStage, State,
};
use priosun::launch::Ask;
use priosun::metadata::get;
use priosun::plan::{Action, Next, Plan, Runner};
use priosun::snapshot::Snapshot;

fn line(action: &Action) -> String {
    match action {
        Action::Message(text) => format!("say {text}"),
        Action::Fail(reason) => format!("fail {reason}"),
        Action::Run(command) => format!("run {} {}", command.program, command.args.join(" ")),
        Action::RunInput { command, input } => {
            format!("run {} {} < {input:?}", command.program, command.args.join(" "))
        }
        Action::RunLog { command, path } => {
            format!("run {} {} >> {path}", command.program, command.args.join(" "))
        }
        Action::CreateDir(path) => format!("mkdir {path}"),
        Action::Write { path, text } => format!("write {path} {text:?}"),
        Action::Append { path, text, create } => format!("append {path} {text:?} {create}"),
        Action::Copy { from, to } => format!("copy {from} {to}"),
        Action::CopyTree { from, to } => format!("copy tree {from} {to}"),
        Action::CopyTemplate { name, to } => format!("template {name} {to}"),
        Action::Replace { path, wanted, by } => format!("replace {path} {wanted} {by}"),
        Action::InterfaceUp(interface) => format!("up {interface}"),
        Action::InterfaceDestroy(interface) => format!("destroy interface {interface}"),
        Action::GroupAdd { interface, group } => format!("group {interface} {group}"),
        Action::BridgeAdd { bridge, member } => format!("bridge add {bridge} {member}"),
        Action::BridgeDelete { bridge, member } => format!("bridge delete {bridge} {member}"),
        Action::JailStart { name, root, hostname, interface } => {
            format!("jail {name} {root} {hostname} {interface}")
        }
        Action::JailStop(name) => format!("stop jail {name}"),
        Action::JailInterface { name, interface } => format!("give {name} {interface}"),
        Action::JailRename { name, from, to } => format!("rename in {name} {from} {to}"),
        Action::Unmount(path) => format!("unmount {path}"),
        Action::DropDir(path) => format!("drop {path}"),
        Action::DropTree(path) => format!("drop tree {path}"),
        other => format!("{other:?}"),
    }
}

fn shown(plan: &Plan) -> Vec<String> {
    plan.steps.iter().map(|step| line(&step.action)).collect()
}

/// What is done where the first action with this line fails, and nothing before it does.
fn after_failure(plan: Plan, failing: &str) -> (Vec<String>, Option<String>) {
    let mut done = Vec::new();
    let mut runner = Runner::new(plan);
    let mut failed = false;
    loop {
        let outcome = match runner.next() {
            Next::Finished => return (done, None),
            Next::Failed(error) => return (done, Some(error.message.clone())),
            Next::Perform(action) => {
                let text = line(action);
                if !failed && text == failing {
                    failed = true;
                    Err(Error::new("broken".to_string()))
                } else {
                    if failed {
                        done.push(text);
                    }
                    Ok(())
                }
            }
        };
        runner = runner.report(outcome);
    }
}

fn config() -> Config {
    let mut config = Config::default();
    config.zfs_pool = "tank".to_string();
    config
}

fn options(name: &str) -> CreateOptions {
    CreateOptions {
        name: name.to_string(),
        set: None,
        version: None,
        base: false,
        from_base: None,
        ssh_key: None,
    }
}

fn host() -> Result<String, Error> {
    Ok("host.example".to_string())
}

fn stored(name: &str, value: Option<&str>) -> Stored {
    Stored {
        kind: ResourceKind::Jail,
        name: name.to_string(),
        dataset: format!("tank/var/priosun/jail/{name}"),
        value: value.map(str::to_string),
    }
}

fn message<T: std::fmt::Debug>(result: Result<T, Error>) -> String {
    result.unwrap_err().message
}

#[test]
fn jail_paths_lie_below_their_bases() {
    assert_eq!(root_path("web"), "/var/priosun/jail/web");
    assert_eq!(base_root_path("web"), "/var/priosun/base/web");
    assert_eq!(dataset("web", &config()), "tank/var/priosun/jail/web");
    assert_eq!(root_path("/etc"), "/etc");
}

#[test]
fn jail_exists_where_its_root_is_a_directory() {
    let files = Snapshot::new()
        .with("/var/priosun/jail/web", true)
        .with("/var/priosun/jail/file", false);
    assert!(path_exists("web", &files));
    assert!(!path_exists("file", &files));
    assert!(!path_exists("other", &files));
}

#[test]
fn check_refuses_what_exists() {
    let files = Snapshot::new().with("/tmp/root", false);
    assert_eq!(message(check("web", "/tmp/root", &files)), "/tmp/root already exists!");
    assert!(check("web", "/tmp/other", &files).is_ok());
}

#[test]
fn jail_names_are_single_components() {
    for name in ["", ".", "..", "a/b"] {
        assert!(!is_single_component(name));
        assert_eq!(message(validate_name(name)), format!("invalid jail name: {name}"));
    }
    assert!(validate_name("web").is_ok());
    assert!(validate_name("...").is_ok());
}

#[test]
fn hostname_is_qualified_by_the_host() {
    assert_eq!(qualified_hostname("web", "host.example"), "web.host.example");
}

#[test]
fn release_gives_its_number() {
    let release = parse_version("14.2").unwrap();
    assert_eq!(release, (14, 2, 1402000));
    let largest = parse_version("21474.83").unwrap();
    assert_eq!(largest, (21474, 83, 2147483000));
}

#[test]
fn release_errors_are_told_apart() {
    assert_eq!(
        message(parse_version("14")),
        "invalid FreeBSD version \"14\"; expected MAJOR.MINOR"
    );
    assert_eq!(message(parse_version("x.1")), "invalid FreeBSD major version: x");
    assert_eq!(message(parse_version("14.y")), "invalid FreeBSD minor version: y");
    assert_eq!(message(parse_version("14.100")), "invalid FreeBSD minor version: 100");
    assert_eq!(message(parse_version("14.2.1")), "invalid FreeBSD minor version: 2.1");
    assert_eq!(message(parse_version("21475.0")), "FreeBSD version is too large: 21475.0");
    assert_eq!(message(parse_version("42949673.0")), "FreeBSD version is too large: 42949673.0");
}

#[test]
fn release_text_is_quoted_with_escapes() {
    assert_eq!(
        message(parse_version("a\"b\n")),
        "invalid FreeBSD version \"a\\\"b\\n\"; expected MAJOR.MINOR"
    );
}

#[test]
fn release_numbers_are_ordered_as_releases() {
    let older = parse_version("13.5").unwrap();
    let newer = parse_version("14.0").unwrap();
    let newest = parse_version("14.1").unwrap();
    assert!(older.2 < newer.2 && newer.2 < newest.2);
}

#[test]
fn created_jail_gets_a_dataset_and_its_record() {
    let plan = create(&options("web"), &config(), &host(), &Snapshot::new()).unwrap();
    assert_eq!(
        shown(&plan),
        vec![
            "say Creating jail web",
            "say Creating the jail ZFS dataset",
            "run zfs create -p tank/var/priosun/jail/web",
            "mkdir /var/priosun/jail/web",
            "run zfs set priosun:enabled=true tank/var/priosun/jail/web",
            "run zfs set priosun:dependencies= tank/var/priosun/jail/web",
            "run zfs set priosun:provisioned=false tank/var/priosun/jail/web",
            "say Configuring package repositories",
            "mkdir /var/priosun/jail/web/usr/local/etc/pkg/repos",
            "write /var/priosun/jail/web/usr/local/etc/pkg/repos/FreeBSD.conf \"FreeBSD-ports: { url: \\\"pkg+https://pkg.FreeBSD.org/${ABI}/latest\\\" }\\nFreeBSD-base: {\\n  url: \\\"pkg+https://pkg.FreeBSD.org/${ABI}/base_release_${VERSION_MINOR}\\\",\\n  enabled: yes\\n}\\n\\n\"",
            "say Installing trusted package keys",
            "copy tree /usr/share/keys /var/priosun/jail/web/usr/share/keys",
            "say Mounting devfs for jail initialization",
            "mkdir /var/priosun/jail/web/dev",
            "run mount -t devfs devfs /var/priosun/jail/web/dev",
            "say Installing FreeBSD-set-base-jail and dhcpcd",
        ]
    );
}

#[test]
fn created_jail_is_cloned_from_its_base() {
    let mut wanted = options("web");
    wanted.from_base = Some("common".to_string());
    let files = Snapshot::new().with("/var/priosun/base/common", true);
    let plan = create(&wanted, &config(), &host(), &files).unwrap();
    let steps = shown(&plan);
    assert_eq!(steps[1], "say Cloning the base jail ZFS dataset");
    assert_eq!(
        steps[2],
        "run zfs clone tank/var/priosun/base/common@base tank/var/priosun/jail/web"
    );
}

#[test]
fn created_release_names_its_repository() {
    let mut wanted = options("web");
    wanted.version = Some("14.2".to_string());
    wanted.set = Some("FreeBSD-set-minimal".to_string());
    let plan = create(&wanted, &config(), &host(), &Snapshot::new()).unwrap();
    let steps = shown(&plan);
    assert!(steps[9].contains("/base_release_2\\\""));
    assert_eq!(steps.last().unwrap(), "say Installing FreeBSD-set-minimal and dhcpcd");
    assert_eq!(
        shown(&create_packages(&wanted, "amd64").unwrap()),
        vec![
            "run pkg -r /var/priosun/jail/web -o ABI=FreeBSD:14:amd64 -o OSVERSION=1402000 install -y FreeBSD-set-minimal dhcpcd",
            "say Creating the provision user",
            "run pw -R /var/priosun/jail/web useradd provision -m -s /bin/sh -G wheel -h 0 < \"provision\\n\"",
            "say Setting a random root password",
        ]
    );
    let mut base = options("common");
    base.base = true;
    assert_eq!(
        shown(&create_packages(&base, "").unwrap()),
        vec!["run pkg -r /var/priosun/base/common install -y FreeBSD-set-base-jail dhcpcd"]
    );
}

#[test]
fn create_is_refused_where_a_name_is_taken() {
    let jail = Snapshot::new().with("/var/priosun/jail/web", true);
    let plan = create(&options("web"), &config(), &host(), &jail);
    assert_eq!(failure(plan), "/var/priosun/jail/web already exists!");
    let base = Snapshot::new().with("/var/priosun/base/web", true);
    let plan = create(&options("web"), &config(), &host(), &base);
    assert_eq!(failure(plan), "a base jail with this name already exists: web");
    let vm = Snapshot::new().with("/var/priosun/vm/web", true);
    let plan = create(&options("web"), &config(), &host(), &vm);
    assert_eq!(failure(plan), "a VM or VM directory with this name already exists: web");
}

#[test]
fn create_is_refused_without_its_base() {
    let mut wanted = options("web");
    wanted.from_base = Some("common".to_string());
    let plan = create(&wanted, &config(), &host(), &Snapshot::new());
    assert_eq!(failure(plan), "base jail does not exist: common");
    wanted.from_base = Some("..".to_string());
    let plan = create(&wanted, &config(), &host(), &Snapshot::new());
    assert_eq!(failure(plan), "invalid jail name: ..");
}

#[test]
fn create_is_refused_for_a_bad_release_or_host() {
    let mut wanted = options("web");
    wanted.version = Some("14".to_string());
    let plan = create(&wanted, &config(), &host(), &Snapshot::new());
    assert_eq!(failure(plan), "invalid FreeBSD version \"14\"; expected MAJOR.MINOR");
    let nameless = Err(Error::new("system hostname is empty".to_string()));
    let plan = create(&options("web"), &config(), &nameless, &Snapshot::new());
    assert_eq!(failure(plan), "system hostname is empty");
}

/// The failure of a plan that could not be made, or that ends in a step which fails.
fn failure(plan: Result<Plan, Error>) -> String {
    match plan {
        Err(error) => error.message,
        Ok(plan) => match &plan.steps.last().unwrap().action {
            Action::Fail(reason) => reason.clone(),
            _ => panic!("the plan does not fail"),
        },
    }
}

#[test]
fn create_looks_at_the_places_that_matter() {
    let mut wanted = options("web");
    wanted.from_base = Some("common".to_string());
    let places = create_probes(&wanted);
    for place in [
        "/var/priosun/jail/web",
        "/var/priosun/base/web",
        "/var/priosun/vm/web",
        "/var/priosun/base/common",
    ] {
        assert!(places.contains(&place.to_string()));
    }
    assert_eq!(create_root(&wanted), "/var/priosun/jail/web");
    wanted.base = true;
    assert_eq!(create_root(&wanted), "/var/priosun/base/web");
}

#[test]
fn created_jail_is_set_up_for_its_network() {
    let plan = create_finish(&options("web"), &config(), "host.example", "secret", &Vec::new());
    let steps = shown(&plan);
    let root = "/var/priosun/jail/web";
    assert_eq!(steps[0], format!("run pw -R {root} usermod root -h 0 < \"secret\\n\""));
    assert!(steps.contains(&format!("run sysrc -R {root} hostname=web.host.example")));
    assert!(steps.contains(&format!("run sysrc -R {root} sshd_enable=YES")));
    assert!(steps.contains(&format!("run sysrc -R {root} clear_tmp_enable=YES")));
    assert!(steps.contains(&format!(
        "append {root}/etc/sysctl.conf \"security.mac.do.rules=gid=0:any\\n\" true"
    )));
    assert!(steps.contains(&format!("template pf-jail.conf {root}/etc/pf.conf")));
    assert!(steps.contains(&format!("write {root}/etc/pf.services \"\"")));
    assert_eq!(steps[steps.len() - 1], format!("run umount {root}/dev"));
}

#[test]
fn created_base_is_snapshotted() {
    let mut wanted = options("common");
    wanted.base = true;
    let steps = shown(&create_finish(&wanted, &config(), "host.example", "", &Vec::new()));
    assert!(!steps.iter().any(|step| step.contains("useradd")));
    assert_eq!(
        steps[steps.len() - 1],
        "run zfs snapshot tank/var/priosun/base/common@base"
    );
}

#[test]
fn key_of_a_created_jail_is_one_line() {
    assert!(valid_key("ssh-ed25519 AAAA me"));
    assert!(!valid_key("two\nlines"));
    assert!(!valid_key("two\rlines"));
    assert!(!valid_key("   "));
    let mut wanted = options("web");
    wanted.ssh_key = Some("ssh-ed25519 AAAA me".to_string());
    let steps = shown(&create_finish(&wanted, &config(), "host", "pw", &Vec::new()));
    let place = "/var/priosun/jail/web/home/provision/.ssh";
    assert_eq!(steps[1], format!("mkdir {place}"));
    assert_eq!(steps[2], format!("write {place}/authorized_keys \"ssh-ed25519 AAAA me\\n\""));
    assert_eq!(steps[3], format!("run chown -R provision:provision {place}"));
    assert_eq!(steps[4], format!("run chmod 700 {place}"));
    wanted.ssh_key = Some(" ".to_string());
    let steps = shown(&create_finish(&wanted, &config(), "host", "pw", &Vec::new()));
    assert_eq!(steps[1], "fail SSH public key must be a single non-empty line");
}

#[test]
fn resolver_names_the_bridge_or_the_chosen_servers() {
    let mut config = config();
    config.use_ipv4 = true;
    config.use_ipv6 = true;
    config.bridge_ip = "192.0.2.1".to_string();
    config.ipv6_prefix = "2001:db8::".to_string();
    config.bridge_ip6 = "1".to_string();
    config.dns_override = Vec::new();
    assert_eq!(
        resolver(&config, &Vec::new()),
        "nameserver 192.0.2.1\nnameserver 2001:db8::1\n"
    );
    config.use_ipv6 = false;
    let servers = vec![
        Nameserver { address: "198.51.100.1".to_string(), family: Family::V4 },
        Nameserver { address: "2001:db8::2".to_string(), family: Family::V6 },
        Nameserver { address: "resolver".to_string(), family: Family::Other },
    ];
    config.dns_override = vec!["198.51.100.1".to_string()];
    assert_eq!(
        resolver(&config, &servers),
        "nameserver 198.51.100.1\nnameserver resolver\n"
    );
}

#[test]
fn jail_dependencies_are_recorded_when_they_hold() {
    let known = vec![stored("web", None), stored("db", None)];
    let plan = set_dependencies("web", vec!["db".to_string()], &config(), &known).unwrap();
    assert_eq!(
        shown(&plan),
        vec!["run zfs set priosun:dependencies=db tank/var/priosun/jail/web"]
    );
    let unknown = set_dependencies("web", vec!["mail".to_string()], &config(), &known);
    assert_eq!(message(unknown), "dependency does not exist: mail");
    let itself = set_dependencies("web", vec!["web".to_string()], &config(), &known);
    assert_eq!(message(itself), "cyclic resource dependency involving web");
}

#[test]
fn jail_is_created_in_stages() {
    let mut wanted = options("web");
    assert_eq!(
        create_stages(&wanted),
        vec![
            CreateStage::Root,
            CreateStage::Packages,
            CreateStage::Password,
            CreateStage::Finish,
        ]
    );
    wanted.version = Some("14.2".to_string());
    wanted.base = true;
    assert_eq!(
        create_stages(&wanted),
        vec![
            CreateStage::Root,
            CreateStage::Architecture,
            CreateStage::Packages,
            CreateStage::Finish,
        ]
    );
    let command = arch_command();
    assert_eq!((command.program.as_str(), command.args.join(" ").as_str()), ("uname", "-p"));
}

#[test]
fn created_jail_keeps_no_devices() {
    for base in [false, true] {
        let mut wanted = options("web");
        wanted.base = base;
        let devices = format!("{}/dev", create_root(&wanted));
        let first = create(&wanted, &config(), &host(), &Snapshot::new()).unwrap();
        assert!(shown(&first).contains(&format!("run mount -t devfs devfs {devices}")));
        let last = create_finish(&wanted, &config(), "host.example", "secret", &Vec::new());
        assert!(shown(&last).contains(&format!("run umount {devices}")));
    }
}

#[test]
fn jail_is_started_in_stages() {
    assert_eq!(
        start_stages(),
        vec![StartStage::Network, StartStage::Interface, StartStage::Jail]
    );
}

#[test]
fn jail_enabling_is_recorded() {
    assert_eq!(
        shown(&set_enabled("web", false, &config())),
        vec!["run zfs set priosun:enabled=false tank/var/priosun/jail/web"]
    );
}

#[test]
fn jail_start_begins_by_asking_whether_it_runs() {
    match start("web").ask() {
        Ask::Running { kind, name } => {
            assert_eq!(kind, ResourceKind::Jail);
            assert_eq!(name, "web");
        }
        _ => panic!("the launch asks something else"),
    }
}

#[test]
fn interface_group_is_the_name_without_its_number() {
    assert_eq!(interface_group("web12"), "web");
    assert_eq!(interface_group("12"), "");
    assert_eq!(interface_group("abcdefghijklmnopqrst"), "abcdefghijklmno");
}

#[test]
fn start_needs_a_host_name() {
    let plan = start_network("web", &host()).unwrap();
    assert_eq!(shown(&plan), vec!["say Creating a network interface for jail web"]);
    let nameless = Err(Error::new("failed to read system hostname".to_string()));
    assert_eq!(message(start_network("web", &nameless)), "failed to read system hostname");
}

fn started() -> Plan {
    let mut config = config();
    config.bridge = "bridge0".to_string();
    start_inner("web", "host.example", "epair3a", &config).unwrap()
}

#[test]
fn started_jail_gets_its_interface() {
    assert_eq!(
        shown(&started()),
        vec![
            "group epair3a web",
            "up epair3a",
            "say Adding epair3a to bridge bridge0",
            "bridge add bridge0 epair3a",
            "say Mounting devfs at /var/priosun/jail/web/dev",
            "run mount -t devfs devfs /var/priosun/jail/web/dev",
            "say Starting jail web with epair3b",
            "jail web /var/priosun/jail/web web.host.example epair3a",
            "give web epair3b",
            "say Renaming epair3b to eth0 inside jail web",
            "rename in web epair3b eth0",
            "say Starting services inside jail web",
            "run jexec web /bin/sh /etc/rc >> /var/log/priosun/web.log",
        ]
    );
}

#[test]
fn started_jail_needs_a_pair_of_interfaces() {
    for interface in ["tap0", "epair0b"] {
        assert_eq!(
            message(start_inner("web", "host", interface, &config())),
            format!("epair creation returned an invalid interface: {interface}")
        );
    }
}

#[test]
fn failed_start_of_a_jail_removes_its_interface() {
    let mount = "run mount -t devfs devfs /var/priosun/jail/web/dev";
    let umount = "run umount /var/priosun/jail/web/dev";
    let cases: Vec<(&str, Vec<&str>)> = vec![
        ("group epair3a web", vec!["destroy interface epair3a"]),
        ("up epair3a", vec!["destroy interface epair3a"]),
        ("bridge add bridge0 epair3a", vec!["destroy interface epair3a"]),
        (mount, vec!["bridge delete bridge0 epair3a", "destroy interface epair3a"]),
        (
            "jail web /var/priosun/jail/web web.host.example epair3a",
            vec![umount, "bridge delete bridge0 epair3a", "destroy interface epair3a"],
        ),
        (
            "give web epair3b",
            vec![
                "stop jail web",
                umount,
                "bridge delete bridge0 epair3a",
                "destroy interface epair3a",
            ],
        ),
        (
            "rename in web epair3b eth0",
            vec![
                "say Removing epair3a from bridge bridge0",
                "bridge delete bridge0 epair3a",
                "say Destroying network interface epair3a",
                "destroy interface epair3a",
                "stop jail web",
                umount,
            ],
        ),
    ];
    for (failing, undone) in cases {
        let (done, error) = after_failure(started(), failing);
        assert_eq!(done, undone);
        let reason = if failing.starts_with("jail") {
            "failed to start jail web: broken"
        } else {
            "broken"
        };
        assert_eq!(error.unwrap(), reason);
    }
}

#[test]
fn stopped_jail_gives_its_interface_back() {
    let mut config = config();
    config.bridge = "bridge0".to_string();
    let files = Snapshot::new().with("/var/priosun/jail/web", true);
    let running = State::Running(Recorded::Interface("epair3a".to_string()));
    let plan = stop("web", &config, &files, &running).unwrap();
    assert_eq!(
        shown(&plan),
        vec![
            "say Removing epair3a from bridge bridge0",
            "bridge delete bridge0 epair3a",
            "say Destroying network interface epair3a",
            "destroy interface epair3a",
            "stop jail web",
            "say Unmounting devfs at /var/priosun/jail/web/dev",
            "unmount /var/priosun/jail/web/dev",
        ]
    );
    let plan = stop("web", &config, &files, &State::Stopped).unwrap();
    assert_eq!(shown(&plan), Vec::<String>::new());
}

#[test]
fn stop_errors_are_told_apart() {
    let files = Snapshot::new().with("/var/priosun/jail/web", true);
    assert_eq!(
        message(stop("web", &config(), &Snapshot::new(), &State::Stopped)),
        "no managed jail exists with this name: web"
    );
    let odd = State::Running(Recorded::Unexpected("Int(1)".to_string()));
    assert_eq!(
        message(stop("web", &config(), &files, &odd)),
        "jail web has an unexpected host.domainname value: Int(1)"
    );
    let unreadable = State::Running(Recorded::Unreadable("denied".to_string()));
    assert_eq!(
        message(stop("web", &config(), &files, &unreadable)),
        "failed to read host.domainname for jail web: denied"
    );
    let unknown = State::Unknown("denied".to_string());
    assert_eq!(
        message(stop("web", &config(), &files, &unknown)),
        "failed to find jail web: denied"
    );
}

#[test]
fn devfs_is_unmounted_with_patience() {
    assert!(matches!(unmount_devfs("/dev", 0, true, ""), Attempt::Done));
    assert!(matches!(unmount_devfs("/dev", 48, false, "busy"), Attempt::Again));
    match unmount_devfs("/dev", 49, false, " busy\n") {
        Attempt::Failed(error) => assert_eq!(error.message, "umount /dev failed: busy"),
        _ => panic!("the attempt is not given up"),
    }
    assert_eq!(umount("/dev").args, vec!["/dev".to_string()]);
}

#[test]
fn destroyed_jail_leaves_no_reference() {
    let files = Snapshot::new().with("/var/priosun/jail/web", true);
    let known = vec![stored("web", Some("db")), stored("app", Some("db,web,mail"))];
    let plan = destroy("web", &config(), &files, &State::Stopped, &known).unwrap();
    assert_eq!(
        shown(&plan),
        vec![
            "run zfs set priosun:dependencies=db,mail tank/var/priosun/jail/app",
            "run zfs destroy -r -f tank/var/priosun/jail/web",
            "drop /var/priosun/jail/web",
        ]
    );
    assert_eq!(
        message(destroy("web", &config(), &Snapshot::new(), &State::Stopped, &known)),
        "no managed jail exists with this name: web"
    );
}

#[test]
fn destroyed_base_leaves_no_tree() {
    let files = Snapshot::new().with("/var/priosun/base/common", true);
    let plan = destroy_base("common", &config(), &files).unwrap();
    assert_eq!(
        shown(&plan),
        vec![
            "run zfs destroy -r -f tank/var/priosun/base/common",
            "drop tree /var/priosun/base/common",
        ]
    );
    assert_eq!(
        message(destroy_base("common", &config(), &Snapshot::new())),
        "base jail does not exist: common"
    );
}

#[test]
fn described_jail_tells_its_state() {
    let running = Probe::Running {
        hostname: "web.host".to_string(),
        ips: vec!["192.0.2.2".to_string(), "2001:db8::2".to_string()],
    };
    let info = describe("web", &running).unwrap();
    assert_eq!(info.hostname, "web.host");
    assert_eq!(info.ips, "192.0.2.2,2001:db8::2");
    assert_eq!(info.status, "running");
    let info = describe("web", &Probe::Stopped).unwrap();
    assert_eq!((info.hostname.as_str(), info.ips.as_str(), info.status.as_str()), ("", "", "stopped"));
    let unknown = Probe::Unknown("denied".to_string());
    assert_eq!(message(describe("web", &unknown)), "failed to find jail web: denied");
    let unreadable = Probe::Unreadable("no hostname".to_string());
    assert_eq!(message(describe("web", &unreadable)), "no hostname");
}

fn found(name: &str, probe: Probe) -> JailEntry {
    JailEntry { name: name.to_string(), directory: true, probe }
}

#[test]
fn listed_jails_are_ordered_by_name() {
    let names = ["web", "Db", "app", "web2", ""];
    let all = names.iter().map(|name| found(name, Probe::Stopped)).collect();
    let sorted: Vec<String> = list(&all).unwrap().into_iter().map(|jail| jail.name).collect();
    assert_eq!(sorted, vec!["", "Db", "app", "web", "web2"]);
}

#[test]
fn list_of_jails_fails_with_the_first_unknown_one() {
    let all = vec![
        found("web", Probe::Stopped),
        found("db", Probe::Unknown("denied".to_string())),
        found("app", Probe::Unreadable("gone".to_string())),
    ];
    assert_eq!(message(list(&all)), "failed to find jail db: denied");
}

#[test]
fn plain_files_are_no_jails() {
    let mut all = vec![
        found("web", Probe::Stopped),
        found("notes", Probe::Unknown("denied".to_string())),
        found("app", Probe::Stopped),
    ];
    all[1].directory = false;
    let names: Vec<String> = list(&all).unwrap().into_iter().map(|jail| jail.name).collect();
    assert_eq!(names, vec!["app", "web"]);
    assert!(list(&Vec::new()).unwrap().is_empty());
}

fn recorded(plan: &Plan, known: &[Stored]) -> Vec<Stored> {
    let mut later: Vec<Stored> = known
        .iter()
        .map(|entry| Stored {
            kind: entry.kind,
            name: entry.name.clone(),
            dataset: entry.dataset.clone(),
            value: entry.value.clone(),
        })
        .collect();
    for step in &plan.steps {
        if let Action::Run(command) = &step.action {
            if command.args[0] == "set" {
                let value = command.args[1].split_once('=').unwrap().1;
                for entry in later.iter_mut().filter(|entry| entry.dataset == command.args[2]) {
                    entry.value = get(true, &format!("{value}\n"));
                }
            }
        }
    }
    later
}

#[test]
fn accepted_dependencies_leave_a_valid_graph() {
    let known = vec![stored("web", None), stored("db", Some("mail")), stored("mail", None)];
    let names = vec!["db".to_string(), "mail".to_string()];
    let plan = set_dependencies("web", names, &config(), &known).unwrap();
    let later = recorded(&plan, &known);
    assert_eq!(later[0].value.as_deref(), Some("db,mail"));
    assert!(validate_all(&later).is_ok());
    let plan = set_dependencies("db", Vec::new(), &config(), &later).unwrap();
    let later = recorded(&plan, &later);
    assert!(later[1].value.is_none());
    assert!(validate_all(&later).is_ok());
}

#[test]
fn destroyed_jail_leaves_a_valid_graph() {
    let known = vec![stored("web", Some("db,mail")), stored("db", None), stored("mail", Some("db"))];
    assert!(validate_all(&known).is_ok());
    let files = Snapshot::new().with("/var/priosun/jail/db", true);
    let plan = destroy("db", &config(), &files, &State::Stopped, &known).unwrap();
    let mut later = recorded(&plan, &known);
    later.retain(|entry| entry.name != "db");
    assert_eq!(later[0].value.as_deref(), Some("mail"));
    assert!(later[1].value.is_none());
    assert!(validate_all(&later).is_ok());
}

#[test]
fn stop_undoes_start() {
    let plan = started();
    let recorded = plan
        .steps
        .iter()
        .find_map(|step| match &step.action {
            Action::JailStart { interface, .. } => Some(interface.clone()),
            _ => None,
        })
        .unwrap();
    let mut config = config();
    config.bridge = "bridge0".to_string();
    let files = Snapshot::new().with("/var/priosun/jail/web", true);
    let state = State::Running(Recorded::Interface(recorded));
    let made = shown(&plan);
    let undone = shown(&stop("web", &config, &files, &state).unwrap());
    for (act, counter) in [
        ("bridge add bridge0 epair3a", "bridge delete bridge0 epair3a"),
        (
            "run mount -t devfs devfs /var/priosun/jail/web/dev",
            "unmount /var/priosun/jail/web/dev",
        ),
        ("jail web /var/priosun/jail/web web.host.example epair3a", "stop jail web"),
    ] {
        assert!(made.contains(&act.to_string()));
        assert!(undone.contains(&counter.to_string()));
    }
    assert!(undone.contains(&"destroy interface epair3a".to_string()));
}
