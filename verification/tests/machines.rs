//! Virtual machines: their images, their seeds, and what is planned for them.

use priosun::bhyve::{
    after_exit, cloud_image, cloud_image_arch, cloud_image_version, create, create_probes,
    create_seed, create_stages, debian_release, destroy, destroy_finish, destroy_seed,
    destroy_stages, disk_path,
    fedora_major_version, fedora_version_is_valid, image_probe, interface_mac_property,
    is_running, list, mac_address, machine_command, needs_host_version, path_exists, pid_path,
    property_names, provision_cloud_image, read_config, release_command, seed_dataset,
    serial_console, set_dependencies,
    set_enabled, start, start_abandon, start_inner, start_prepare, start_with_seed, stop,
    stop_finish, stop_stages, tap_path, tpm_pid_path, tpm_socket_path, ubuntu_codename, user_data,
    validate_name, validate_os, vm_dataset, vm_root_path, wait_for_cleanup, wait_for_exit, Await,
    EndStage, StartStage, Starting, VmConfig, VmCreateOptions, VmEntry, VmStage,
};
use priosun::config::Config;
use priosun::dependency::{validate_all, ResourceKind, Stored};
use priosun::error::Error;
use priosun::launch::{Answer, Ask};
use priosun::plan::{Action, Next, Plan, Runner};
use priosun::snapshot::Snapshot;

fn line(action: &Action) -> String {
    match action {
        Action::Fail(reason) => format!("fail {reason}"),
        Action::Announce(command) => format!("announce {}", command.program),
        Action::Run(command) => format!("run {} {}", command.program, command.args.join(" ")),
        Action::RunTo { command, path } => {
            format!("run {} {} > {path}", command.program, command.args.join(" "))
        }
        Action::RunFile { command, path } => format!("run {} < {path}", command.program),
        Action::CreateDir(path) => format!("mkdir {path}"),
        Action::RemoveDir(path) => format!("rmdir {path}"),
        Action::RemoveFile(path) => format!("rm {path}"),
        Action::Write { path, text } => format!("write {path} {text:?}"),
        Action::InterfaceUp(interface) => format!("up {interface}"),
        Action::InterfaceDestroy(interface) => format!("destroy interface {interface}"),
        Action::BridgeAdd { bridge, member } => format!("bridge add {bridge} {member}"),
        Action::BridgeDelete { bridge, member } => format!("bridge delete {bridge} {member}"),
        Action::TpmStart { name, script } => format!("tpm {name}: {script}"),
        Action::TpmStop(name) => format!("stop tpm {name}"),
        Action::ConsoleOpen(name) => format!("open console {name}"),
        Action::ConsoleClose(name) => format!("close console {name}"),
        Action::VmStart { name, command } => format!("vm {name}: {}", command.args.join(" ")),
        Action::VmPid { name, path } => format!("pid {name} {path}"),
        Action::TpmPid { name, path } => format!("tpm pid {name} {path}"),
        Action::Terminate { name, pid } => format!("terminate {name} {pid}"),
        Action::AwaitRemoval { name, path } => format!("await {name} {path}"),
        other => format!("{other:?}"),
    }
}

fn shown(plan: &Plan) -> Vec<String> {
    plan.steps.iter().map(|step| line(&step.action)).collect()
}

/// What is done where the first action that begins so fails, and nothing before it does.
fn after_failure(plan: Plan, failing: &str) -> (Vec<String>, Option<String>) {
    let mut done = Vec::new();
    let mut runner = Runner::new(plan);
    let mut failed = false;
    loop {
        let outcome = match runner.next() {
            Next::Finished => return (done, None),
            Next::Failed(error) => return (done, Some(error.message.clone())),
            Next::Perform(action) => {
                let text = line(action);
                if !failed && text.starts_with(failing) {
                    failed = true;
                    Err(Error::new("broken".to_string()))
                } else {
                    if failed {
                        done.push(text);
                    }
                    Ok(())
                }
            }
        };
        runner = runner.report(outcome);
    }
}

fn message<T: std::fmt::Debug>(result: Result<T, Error>) -> String {
    result.unwrap_err().message
}

fn config() -> Config {
    let mut config = Config::default();
    config.zfs_pool = "tank".to_string();
    config.bridge = "bridge0".to_string();
    config.vm_firmware = "/firmware.fd".to_string();
    config
}

fn options() -> VmCreateOptions<'static> {
    VmCreateOptions {
        disk: "20G",
        os: "freebsd",
        version: None,
        cloud_init: false,
        ssh_key: None,
        iso: None,
        vnc_port: None,
        vnc_bind: " 127.0.0.1 ",
        vnc_width: 1024,
        vnc_height: 768,
        tpm: false,
        cpus: 2,
        memory: " 4G",
    }
}

fn no_iso() -> Result<String, String> {
    Ok(String::new())
}

fn vm() -> VmConfig {
    VmConfig {
        name: "box".to_string(),
        disk: "/dev/zvol/tank/var/priosun/vm/box/disk.vol".to_string(),
        os: "freebsd".to_string(),
        iso: None,
        vnc_port: None,
        vnc_bind: "127.0.0.1".to_string(),
        vnc_width: 1024,
        vnc_height: 768,
        tpm: false,
        cpus: 2,
        memory: "4G".to_string(),
        dependencies: Vec::new(),
        enabled: true,
        interface_macs: vec![("virtio-net0".to_string(), "02:00:00:00:00:01".to_string())],
    }
}

fn properties() -> Vec<(String, String)> {
    [
        ("os", "freebsd"),
        ("vnc_bind", "127.0.0.1"),
        ("vnc_width", "1024"),
        ("vnc_height", "768"),
        ("cpus", "2"),
        ("memory", "4G"),
    ]
    .iter()
    .map(|(name, value)| (name.to_string(), value.to_string()))
    .collect()
}

fn with(name: &str, value: &str) -> Vec<(String, String)> {
    let mut list = properties();
    list.retain(|(property, _)| property != name);
    list.push((name.to_string(), value.to_string()));
    list
}

fn without(name: &str) -> Vec<(String, String)> {
    let mut list = properties();
    list.retain(|(property, _)| property != name);
    list
}

#[test]
fn vm_paths_lie_below_their_bases() {
    assert_eq!(vm_root_path("box"), "/var/priosun/vm/box");
    assert_eq!(vm_dataset("box", &config()), "tank/var/priosun/vm/box");
    assert_eq!(disk_path("box", &config()), "/dev/zvol/tank/var/priosun/vm/box/disk.vol");
    assert_eq!(seed_dataset("box", &config()), "tank/var/priosun/seed/box");
    assert_eq!(pid_path("box"), "/var/priosun/vm/box/bhyve.pid");
    assert_eq!(tpm_pid_path("box"), "/var/priosun/vm/box/tpm.pid");
    assert_eq!(tap_path("box"), "/var/priosun/vm/box/tap");
    assert_eq!(tpm_socket_path("box"), "/var/run/swtpm/box");
    assert_eq!(interface_mac_property("virtio-net0"), "mac_virtio-net0");
}

#[test]
fn vm_exists_where_its_root_is_a_directory() {
    let files = Snapshot::new()
        .with("/var/priosun/vm/box", true)
        .with("/var/priosun/vm/file", false)
        .with("/var/priosun/vm/..", true);
    assert!(path_exists("box", &files));
    assert!(!path_exists("file", &files));
    assert!(!path_exists("..", &files));
    assert_eq!(message(validate_name("..")), "invalid VM name: ..");
    assert!(validate_name("box").is_ok());
}

#[test]
fn made_up_address_is_local() {
    assert_eq!(mac_address([0xff, 0x00, 0x0a, 0xb0, 0x01, 0xfe]), "fe:00:0a:b0:01:fe");
    assert_eq!(mac_address([0x00, 1, 2, 3, 4, 5]), "02:01:02:03:04:05");
    assert_eq!(mac_address([0x01, 1, 2, 3, 4, 5]), "02:01:02:03:04:05");
}

#[test]
fn only_some_systems_are_supported() {
    for os in ["freebsd", "ubuntu", "fedora", "debian"] {
        assert!(validate_os(os).is_ok());
    }
    assert_eq!(message(validate_os("plan9")), "unsupported VM operating system: plan9");
}

#[test]
fn names_of_a_release_give_one_image() {
    assert_eq!(ubuntu_codename("24.04").unwrap(), "noble");
    assert_eq!(ubuntu_codename("NOBLE").unwrap(), "noble");
    assert!(ubuntu_codename("23.10").is_none());
    assert_eq!(debian_release("Bookworm").unwrap(), ("12".to_string(), "bookworm".to_string()));
    assert!(debian_release("10").is_none());
    assert_eq!(
        cloud_image("ubuntu", "24.04", "amd64").unwrap(),
        cloud_image("ubuntu", "noble", "amd64").unwrap()
    );
}

#[test]
fn fedora_releases_have_two_parts() {
    assert!(fedora_version_is_valid("44-1.7"));
    assert!(!fedora_version_is_valid("44"));
    assert!(!fedora_version_is_valid("-1"));
    assert!(!fedora_version_is_valid("44-"));
    assert!(!fedora_version_is_valid("44-1-2"));
    assert_eq!(fedora_major_version("44-1.7"), "44");
    assert_eq!(fedora_major_version("44"), "44");
}

#[test]
fn image_version_has_a_default() {
    assert_eq!(cloud_image_version("ubuntu", None, "").unwrap(), "resolute");
    assert_eq!(cloud_image_version("fedora", None, "").unwrap(), "44-1.7");
    assert_eq!(cloud_image_version("debian", None, "").unwrap(), "13");
    assert_eq!(cloud_image_version("freebsd", None, "14.2-RELEASE-p1").unwrap(), "14.2");
    assert_eq!(cloud_image_version("freebsd", Some("13.5"), "").unwrap(), "13.5");
    assert!(needs_host_version("freebsd", None));
    assert!(!needs_host_version("freebsd", Some("13.5")));
    assert!(!needs_host_version("debian", None));
}

#[test]
fn image_version_errors_are_told_apart() {
    assert_eq!(
        message(cloud_image_version("freebsd", Some("14"), "")),
        "invalid FreeBSD release version: 14"
    );
    assert_eq!(
        message(cloud_image_version("freebsd", Some("14.2-RC1"), "")),
        "invalid FreeBSD release version: 14.2-RC1"
    );
    assert_eq!(
        message(cloud_image_version("ubuntu", Some("23.10"), "")),
        "unsupported Ubuntu release version: 23.10"
    );
    assert_eq!(
        message(cloud_image_version("fedora", Some("44"), "")),
        "invalid Fedora release version: 44; expected MAJOR-RELEASE"
    );
    assert_eq!(
        message(cloud_image_version("debian", Some("10"), "")),
        "unsupported Debian release version: 10"
    );
}

#[test]
fn image_architecture_is_named_as_the_system_does() {
    assert_eq!(cloud_image_arch("ubuntu", "x86_64").unwrap(), "amd64");
    assert_eq!(cloud_image_arch("debian", "aarch64").unwrap(), "arm64");
    assert_eq!(cloud_image_arch("fedora", "amd64").unwrap(), "x86_64");
    assert_eq!(cloud_image_arch("fedora", "arm64").unwrap(), "aarch64");
    assert_eq!(cloud_image_arch("freebsd", "riscv64").unwrap(), "riscv64");
    assert_eq!(
        message(cloud_image_arch("ubuntu", "riscv64")),
        "unsupported ubuntu host architecture: riscv64"
    );
    assert_eq!(
        message(cloud_image_arch("freebsd", "")),
        "uname -m returned an empty architecture"
    );
}

#[test]
fn images_are_fetched_from_their_system() {
    let cases = [
        (
            "ubuntu",
            "noble",
            "amd64",
            "noble-server-cloudimg-amd64.img",
            "https://cloud-images.ubuntu.com/noble/current/noble-server-cloudimg-amd64.img",
        ),
        (
            "fedora",
            "44-1.7",
            "x86_64",
            "Fedora-Cloud-Base-Generic-44-1.7.x86_64.qcow2",
            "https://download.fedoraproject.org/pub/fedora/linux/releases/44/Cloud/x86_64/images/Fedora-Cloud-Base-Generic-44-1.7.x86_64.qcow2",
        ),
        (
            "debian",
            "trixie",
            "arm64",
            "debian-13-generic-arm64.qcow2",
            "https://cloud.debian.org/images/cloud/trixie/latest/debian-13-generic-arm64.qcow2",
        ),
        (
            "freebsd",
            "14.2",
            "amd64",
            "FreeBSD-14.2-RELEASE-amd64-BASIC-CLOUDINIT-zfs.raw.xz",
            "https://download.freebsd.org/releases/VM-IMAGES/14.2-RELEASE/amd64/Latest/FreeBSD-14.2-RELEASE-amd64-BASIC-CLOUDINIT-zfs.raw.xz",
        ),
    ];
    for (os, version, arch, file, url) in cases {
        assert_eq!(
            cloud_image(os, version, arch).unwrap(),
            (file.to_string(), url.to_string())
        );
    }
    assert_eq!(
        message(cloud_image("ubuntu", "1", "amd64")),
        "unsupported Ubuntu release version: 1"
    );
    assert_eq!(
        message(cloud_image("debian", "1", "amd64")),
        "unsupported Debian release version: 1"
    );
}

#[test]
fn kept_image_is_reused() {
    let image = "/var/priosun/images/noble-server-cloudimg-amd64.img";
    assert_eq!(image_probe("ubuntu", "noble", "amd64").unwrap(), image);
    assert!(image_probe("ubuntu", "noble", "riscv64").is_none());
    let convert = format!("run qemu-img convert -O raw {image} /dev/disk");
    let fresh = provision_cloud_image("ubuntu", "noble", "/dev/disk", "amd64", &Snapshot::new());
    assert_eq!(
        shown(&fresh.unwrap()),
        vec![
            format!("run fetch -o {image} https://cloud-images.ubuntu.com/noble/current/noble-server-cloudimg-amd64.img"),
            convert.clone(),
        ]
    );
    let files = Snapshot::new().with(image, false);
    let kept = provision_cloud_image("ubuntu", "noble", "/dev/disk", "amd64", &files);
    assert_eq!(shown(&kept.unwrap()), vec![convert]);
}

#[test]
fn freebsd_image_is_unpacked_onto_the_disk() {
    let image = "/var/priosun/images/FreeBSD-14.2-RELEASE-amd64-BASIC-CLOUDINIT-zfs.raw.xz";
    let files = Snapshot::new().with(image, false);
    let plan = provision_cloud_image("freebsd", "14.2", "/dev/disk", "amd64", &files).unwrap();
    assert_eq!(shown(&plan), vec![format!("run unxz -T0 -c {image} > /dev/disk")]);
    assert_eq!(
        message(provision_cloud_image("ubuntu", "noble", "/dev/disk", "sparc", &files)),
        "unsupported ubuntu host architecture: sparc"
    );
}

#[test]
fn created_vm_gets_its_datasets_and_its_record() {
    let mut wanted = options();
    wanted.vnc_port = Some(5900);
    wanted.iso = Some("boot.iso");
    let iso = Ok("/isos/boot.iso".to_string());
    let mac = "02:00:00:00:00:01";
    let plan = create("box", &wanted, &config(), "", &iso, mac, &Snapshot::new()).unwrap();
    let set = |property: &str| format!("run zfs set priosun:{property} tank/var/priosun/vm/box");
    assert_eq!(
        shown(&plan),
        vec![
            "run zfs create -p tank/var/priosun/vm/box".to_string(),
            "run zfs create -V 20G tank/var/priosun/vm/box/disk.vol".to_string(),
            set("os=freebsd"),
            set("iso=/isos/boot.iso"),
            set("vnc_port=5900"),
            set("vnc_bind=127.0.0.1"),
            set("vnc_width=1024"),
            set("vnc_height=768"),
            set("tpm=false"),
            set("cpus=2"),
            set("memory=4G"),
            set("dependencies="),
            set("enabled=true"),
            set("mac_virtio-net0=02:00:00:00:00:01"),
        ]
    );
}

#[test]
fn created_vm_reads_back() {
    let plan = create("box", &options(), &config(), "", &no_iso(), "02:11", &Snapshot::new());
    let mut recorded = Vec::new();
    for step in plan.unwrap().steps {
        if let Action::Run(command) = step.action {
            if command.args[0] == "set" {
                let (name, value) = command.args[1].split_once('=').unwrap();
                recorded.push((name["priosun:".len()..].to_string(), value.to_string()));
            }
        }
    }
    recorded.retain(|(_, value)| !value.is_empty());
    let read = read_config("box", &config(), &recorded).unwrap();
    assert_eq!(read.os, "freebsd");
    assert_eq!((read.cpus, read.memory.as_str()), (2, "4G"));
    assert_eq!((read.vnc_port, read.vnc_bind.as_str()), (None, "127.0.0.1"));
    assert_eq!((read.vnc_width, read.vnc_height), (1024, 768));
    assert!(!read.tpm && read.enabled && read.dependencies.is_empty());
    assert_eq!(read.interface_macs, vec![("virtio-net0".to_string(), "02:11".to_string())]);
}

#[test]
fn create_vm_errors_are_told_apart() {
    let none = Snapshot::new();
    let refused = |name: &str, wanted: &VmCreateOptions<'_>, files: &Snapshot| {
        message(create(name, wanted, &config(), "", &no_iso(), "", files))
    };
    let mut wanted = options();
    wanted.os = "plan9";
    assert_eq!(refused("box", &wanted, &none), "unsupported VM operating system: plan9");
    let mut wanted = options();
    wanted.cloud_init = true;
    wanted.version = Some("14");
    assert_eq!(refused("box", &wanted, &none), "invalid FreeBSD release version: 14");
    assert_eq!(refused("a/b", &options(), &none), "invalid VM name: a/b");
    let vm = Snapshot::new().with("/var/priosun/vm/box", true);
    assert_eq!(refused("box", &options(), &vm), "VM already exists: box");
    let jail = Snapshot::new().with("/var/priosun/jail/box", false);
    assert_eq!(
        refused("box", &options(), &jail),
        "a jail or jail configuration with this name already exists: box"
    );
    for cpus in [0, 257] {
        let mut wanted = options();
        wanted.cpus = cpus;
        assert_eq!(refused("box", &wanted, &none), "VM CPU count must be between 1 and 256");
    }
    let mut wanted = options();
    wanted.memory = " \t";
    assert_eq!(refused("box", &wanted, &none), "VM memory must not be empty");
    let mut wanted = options();
    wanted.vnc_port = Some(0);
    let size = "VNC port, width, and height must be greater than zero";
    assert_eq!(refused("box", &wanted, &none), size);
    let mut wanted = options();
    wanted.vnc_height = 0;
    assert_eq!(refused("box", &wanted, &none), size);
    let mut wanted = options();
    wanted.vnc_port = Some(1);
    wanted.vnc_bind = " ";
    assert_eq!(refused("box", &wanted, &none), "VNC bind address must not be empty");
}

#[test]
fn create_vm_needs_its_iso() {
    let mut wanted = options();
    wanted.iso = Some("boot.iso");
    let missing = Err("No such file".to_string());
    assert_eq!(
        message(create("box", &wanted, &config(), "", &missing, "", &Snapshot::new())),
        "ISO does not exist: boot.iso: No such file"
    );
    let places = create_probes("box");
    assert!(places.contains(&"/var/priosun/vm/box".to_string()));
    assert!(places.contains(&"/var/priosun/jail/box".to_string()));
}

#[test]
fn seed_is_written_to_its_volume() {
    let plan = create_seed("box", "debian", None, &config(), "pw").unwrap();
    let steps = shown(&plan);
    let device = "/dev/zvol/tank/var/priosun/seed/box";
    let place = "/var/priosun/vm/box/seed";
    assert_eq!(steps[0], "run zfs create -V 256M tank/var/priosun/seed/box");
    assert_eq!(steps[1], format!("run newfs_msdos -F 32 -c 4 -L cidata {device}"));
    assert_eq!(steps[2], format!("mkdir {place}"));
    assert_eq!(steps[3], format!("run mount -t msdosfs {device} {place}"));
    assert_eq!(
        steps[4],
        format!("write {place}/meta-data \"instance-id: box\\nlocal-hostname: box\\n\"")
    );
    assert!(steps[5].starts_with(&format!("write {place}/user-data \"#cloud-config\\n")));
    assert_eq!(steps[6], format!("run /usr/libexec/flua < {place}/meta-data"));
    assert_eq!(steps[7], format!("run /usr/libexec/flua < {place}/user-data"));
    assert_eq!(steps[8], format!("run umount {place}"));
    assert_eq!(steps[9], format!("rmdir {place}"));
    assert_eq!(steps.len(), 10);
}

#[test]
fn seed_is_unmounted_where_it_cannot_be_written() {
    let plan = create_seed("box", "debian", None, &config(), "pw").unwrap();
    let (done, error) = after_failure(plan, "run /usr/libexec/flua");
    assert_eq!(done, vec!["run umount /var/priosun/vm/box/seed"]);
    assert_eq!(
        error.unwrap(),
        "invalid cloud-init YAML: /var/priosun/vm/box/seed/meta-data: broken"
    );
}

#[test]
fn seed_needs_one_key_line() {
    for key in ["", " ", "a\nb", "a\rb"] {
        assert_eq!(
            message(create_seed("box", "debian", Some(key), &config(), "pw")),
            "SSH public key must be a single non-empty line"
        );
    }
}

#[test]
fn user_data_names_the_key_and_the_password() {
    let text = user_data("fedora", Some("it's mine"), "pw").unwrap();
    assert!(text.contains("    ssh_authorized_keys:\n      - 'it''s mine'\nssh_pwauth: true\n"));
    assert!(text.contains("    root:pw\n"));
    assert!(text.contains("    groups: [wheel]\n"));
    let text = user_data("ubuntu", None, "pw").unwrap();
    assert!(text.contains("    shell: /bin/bash\nssh_pwauth: true\n"));
    assert!(text.contains("    groups: [adm, sudo]\n"));
    let text = user_data("freebsd", None, "pw").unwrap();
    assert!(text.contains("      password: \"RANDOM\"\n"));
    assert!(!text.contains("pw\n"));
    assert!(user_data("plan9", None, "pw").is_none());
}

#[test]
fn user_data_of_fedora_is_exact() {
    assert_eq!(
        user_data("fedora", None, "pw").unwrap(),
        "#cloud-config\npackage_update: true\npackage_upgrade: true\nusers:\n  - default\n  - name: provision\n    plain_text_passwd: provision\n    lock_passwd: false\n    groups: [wheel]\n    sudo: [\"ALL=(ALL) NOPASSWD:ALL\"]\n    shell: /bin/bash\nssh_pwauth: true\nchpasswd:\n  list: |\n    root:pw\n  expire: false\nruncmd:\n  - grubby --update-kernel=ALL --args=console=ttyS0,115200\n  - systemctl enable --now serial-getty@ttyS0.service\npower_state:\n  mode: reboot\n  message: Rebooting after package updates\n  timeout: 30\n"
    );
}

#[test]
fn vm_config_is_read_from_its_record() {
    let mut list = with("vnc_port", "5901");
    list.push(("iso".to_string(), "/boot.iso".to_string()));
    list.push(("tpm".to_string(), "true".to_string()));
    list.push(("enabled".to_string(), "false".to_string()));
    list.push(("dependencies".to_string(), "db,,web".to_string()));
    let read = read_config("box", &config(), &list).unwrap();
    assert_eq!(read.disk, "/dev/zvol/tank/var/priosun/vm/box/disk.vol");
    assert_eq!(read.vnc_port, Some(5901));
    assert_eq!(read.iso.as_deref(), Some("/boot.iso"));
    assert!(read.tpm && !read.enabled);
    assert_eq!(read.dependencies, vec!["db", "web"]);
    assert!(read.interface_macs.is_empty());
    let names = property_names();
    for name in ["os", "iso", "vnc_port", "tpm", "enabled", "mac_virtio-net0"] {
        assert!(names.contains(&name.to_string()));
    }
}

#[test]
fn vm_config_errors_are_told_apart() {
    let read = |list: Vec<(String, String)>| message(read_config("box", &config(), &list));
    assert_eq!(message(read_config("..", &config(), &properties())), "invalid VM name: ..");
    assert_eq!(
        read(without("os")),
        "missing ZFS property priosun:os on tank/var/priosun/vm/box"
    );
    assert_eq!(
        read(without("memory")),
        "missing ZFS property priosun:memory on tank/var/priosun/vm/box"
    );
    assert_eq!(read(with("vnc_port", "65536")), "number too large to fit in target type");
    assert_eq!(read(with("vnc_width", "wide")), "invalid digit found in string");
    assert_eq!(
        read(with("tpm", "yes")),
        "invalid boolean ZFS property priosun:tpm=yes: provided string was not `true` or `false`"
    );
    assert_eq!(read(with("cpus", "-1")), "invalid digit found in string");
}

fn stored(name: &str, value: Option<&str>) -> Stored {
    Stored {
        kind: ResourceKind::Vm,
        name: name.to_string(),
        dataset: format!("tank/var/priosun/vm/{name}"),
        value: value.map(str::to_string),
    }
}

#[test]
fn vm_is_created_in_stages() {
    assert_eq!(create_stages(&options()), vec![VmStage::Machine]);
    let mut wanted = options();
    wanted.cloud_init = true;
    let from_cloud = vec![VmStage::Machine, VmStage::Image, VmStage::Seed];
    assert_eq!(
        create_stages(&wanted),
        vec![VmStage::HostVersion, VmStage::Machine, VmStage::Image, VmStage::Seed]
    );
    wanted.version = Some("14.2");
    assert_eq!(create_stages(&wanted), from_cloud);
    wanted.version = None;
    wanted.os = "debian";
    assert_eq!(create_stages(&wanted), from_cloud);
    wanted.os = "plan9";
    assert_eq!(create_stages(&wanted), from_cloud);
    assert_eq!(release_command().args, vec!["-r"]);
    assert_eq!(machine_command().args, vec!["-m"]);
}

fn course(vm: &VmConfig, use_seed: bool, outcomes: &[Result<(), &str>]) -> Starting {
    let mut starting = Starting::new();
    for outcome in outcomes {
        let outcome = outcome.map_err(|reason| Error { message: reason.to_string() });
        starting = starting.next(vm, use_seed, outcome);
    }
    starting
}

#[test]
fn vm_is_started_in_stages() {
    let mut wanted = vm();
    let mut stages = Vec::new();
    for count in 0..6 {
        stages.push(course(&wanted, false, &vec![Ok(()); count]).stage);
    }
    assert_eq!(
        stages,
        vec![
            StartStage::Prepare,
            StartStage::Interface,
            StartStage::Machine,
            StartStage::Watch,
            StartStage::Started,
            StartStage::Started,
        ]
    );
    assert_eq!(course(&wanted, true, &[Ok(()), Ok(())]).stage, StartStage::Seed);
    wanted.interface_macs.clear();
    assert_eq!(course(&wanted, true, &[Ok(()), Ok(())]).stage, StartStage::Address);
    assert_eq!(course(&wanted, true, &[Ok(()), Ok(()), Ok(())]).stage, StartStage::Seed);
    assert_eq!(course(&wanted, false, &[Ok(()), Ok(()), Ok(())]).stage, StartStage::Machine);
    let missing = [Ok(()), Ok(()), Ok(()), Err("no zfs")];
    assert_eq!(course(&wanted, true, &missing).stage, StartStage::Machine);
    assert_eq!(course(&wanted, true, &vec![Ok(()); 6]).stage, StartStage::Started);
}

#[test]
fn vm_without_an_interface_is_abandoned() {
    let refused = course(&vm(), false, &[Ok(()), Err("no tap")]);
    assert_eq!(refused.stage, StartStage::Abandon);
    let ended = course(&vm(), false, &[Ok(()), Err("no tap"), Err("no process")]);
    assert_eq!(ended.stage, StartStage::Failed);
    assert_eq!(ended.failure.unwrap().message, "no tap");
    let unprepared = course(&vm(), false, &[Err("it runs")]);
    assert_eq!(unprepared.stage, StartStage::Failed);
    assert_eq!(unprepared.failure.unwrap().message, "it runs");
    let broken = course(&vm(), false, &[Ok(()), Ok(()), Err("no bhyve")]);
    assert_eq!(broken.stage, StartStage::Failed);
    assert_eq!(broken.failure.unwrap().message, "no bhyve");
}

#[test]
fn vm_is_stopped_before_it_is_destroyed() {
    assert_eq!(stop_stages(), vec![EndStage::Terminate, EndStage::Clear]);
    assert_eq!(
        destroy_stages(),
        vec![EndStage::Terminate, EndStage::Clear, EndStage::Dataset, EndStage::Seed]
    );
}

#[test]
fn vm_dependencies_and_enabling_are_recorded() {
    let known = vec![stored("box", None), stored("db", Some("box"))];
    let names = vec!["db".to_string()];
    assert_eq!(
        message(set_dependencies("box", names, &config(), &known)),
        "cyclic resource dependency involving box"
    );
    let known = vec![stored("box", None), stored("db", None)];
    let names = vec!["db".to_string()];
    assert_eq!(
        shown(&set_dependencies("box", names, &config(), &known).unwrap()),
        vec!["run zfs set priosun:dependencies=db tank/var/priosun/vm/box"]
    );
    assert_eq!(
        shown(&set_enabled("box", true, &config()).unwrap()),
        vec!["run zfs set priosun:enabled=true tank/var/priosun/vm/box"]
    );
    assert_eq!(message(set_enabled("a/b", true, &config())), "invalid VM name: a/b");
    let names = vec!["mail".to_string()];
    assert_eq!(
        message(set_dependencies("a/b", names, &config(), &known)),
        "dependency does not exist: mail"
    );
    let names = vec!["db".to_string()];
    assert_eq!(
        message(set_dependencies("a/b", names, &config(), &known)),
        "invalid VM name: a/b"
    );
}

#[test]
fn seed_is_used_at_the_first_start_only() {
    for (launch, wanted) in [(start("box"), false), (start_with_seed("box"), true)] {
        let launch = launch.answer(Answer::Flag(false)).answer(Answer::Names(Vec::new()));
        match launch.ask() {
            Ask::Start { kind, name, seed } => {
                assert_eq!(kind, ResourceKind::Vm);
                assert_eq!(name, "box");
                assert_eq!(seed, wanted);
            }
            _ => panic!("the launch asks something else"),
        }
    }
}

#[test]
fn start_of_a_vm_is_checked_first() {
    let none = Snapshot::new();
    let mut odd = vm();
    odd.os = "plan9".to_string();
    assert_eq!(
        message(start_prepare(&odd, false, &none)),
        "unsupported VM operating system: plan9"
    );
    assert_eq!(message(start_prepare(&vm(), true, &none)), "VM is already running: box");
    assert_eq!(shown(&start_prepare(&vm(), false, &none).unwrap()), Vec::<String>::new());
    let mut secure = vm();
    secure.tpm = true;
    assert_eq!(
        shown(&start_prepare(&secure, false, &none).unwrap()),
        vec!["tpm box: exec swtpm socket --tpmstate dir=/var/run/swtpm --tpm2 --ctrl type=unixio,path=/var/run/swtpm/box"]
    );
    let used = Snapshot::new().with("/var/run/swtpm/box", false);
    assert_eq!(
        message(start_prepare(&secure, false, &used)),
        "TPM socket already exists: /var/run/swtpm/box"
    );
    assert_eq!(shown(&start_abandon(&secure)), vec!["stop tpm box"]);
    assert_eq!(shown(&start_abandon(&vm())), Vec::<String>::new());
}

#[test]
fn started_vm_is_called_with_its_devices() {
    let files = Snapshot::new().with("/firmware.fd", false);
    let plan = start_inner(&vm(), &config(), "tap7", "02:99", false, false, &files);
    assert_eq!(
        shown(&plan),
        vec![
            "up tap7",
            "bridge add bridge0 tap7",
            "write /var/priosun/vm/box/tap \"tap7\"",
            "announce bhyve",
            "open console box",
            "vm box: -c 2 -m 4G -A -H -P -s 0,hostbridge -s 3,nvme,/dev/zvol/tank/var/priosun/vm/box/disk.vol -s 2,virtio-net,tap7,mac=02:00:00:00:00:01 -s 31,lpc -l com1,stdio -l bootrom,/firmware.fd box",
            "pid box /var/priosun/vm/box/bhyve.pid",
        ]
    );
}

#[test]
fn started_vm_has_a_screen_and_a_seed_where_wanted() {
    let mut wanted = vm();
    wanted.vnc_port = Some(5900);
    wanted.tpm = true;
    wanted.interface_macs = Vec::new();
    let plan = start_inner(&wanted, &config(), "tap7", "02:99", true, true, &Snapshot::new());
    let steps = shown(&plan);
    assert_eq!(
        steps[3],
        "run zfs set priosun:mac_virtio-net0=02:99 tank/var/priosun/vm/box"
    );
    assert_eq!(
        steps[6],
        "vm box: -c 2 -m 4G -A -H -P -s 0,hostbridge -s 3,nvme,/dev/zvol/tank/var/priosun/vm/box/disk.vol -s 2,virtio-net,tap7,mac=02:99 -s 31,lpc -l com1,stdio -s 4,nvme,/dev/zvol/tank/var/priosun/seed/box -s 29,fbuf,tcp=127.0.0.1:5900,w=1024,h=768 -s 31,lpc,tpm,path=/var/run/swtpm/box box"
    );
    assert_eq!(steps[8], "tpm pid box /var/priosun/vm/box/tpm.pid");
}

#[test]
fn started_vm_has_an_iso_or_a_seed() {
    let mut wanted = vm();
    wanted.iso = Some("/boot.iso".to_string());
    let plan = start_inner(&wanted, &config(), "tap7", "", false, false, &Snapshot::new());
    assert!(shown(&plan)[5].contains(" -s 4,ahci-cd,/boot.iso "));
    let plan = start_inner(&wanted, &config(), "tap7", "", true, true, &Snapshot::new());
    assert_eq!(
        shown(&plan).last().unwrap(),
        "fail VM cannot use both cloud-init and an installation ISO"
    );
    let plan = start_inner(&wanted, &config(), "", "", false, false, &Snapshot::new());
    assert_eq!(shown(&plan)[0], "fail tap creation returned an empty interface name");
}

#[test]
fn unstarted_vm_leaves_nothing() {
    let mut wanted = vm();
    wanted.tpm = true;
    let plan = start_inner(&wanted, &config(), "tap7", "", false, false, &Snapshot::new());
    let (done, error) = after_failure(plan, "vm box");
    assert_eq!(
        done,
        vec![
            "bridge delete bridge0 tap7",
            "destroy interface tap7",
            "rm /var/priosun/vm/box/tap",
            "stop tpm box",
            "close console box",
        ]
    );
    assert_eq!(
        error.unwrap(),
        "failed to start bhyve; is bhyve installed and virtualization enabled?: broken"
    );
    let plan = start_inner(&wanted, &config(), "tap7", "", false, false, &Snapshot::new());
    let (done, _) = after_failure(plan, "write");
    assert_eq!(
        done,
        vec!["bridge delete bridge0 tap7", "destroy interface tap7", "stop tpm box"]
    );
}

#[test]
fn ended_vm_is_cleared_away() {
    let plan = after_exit(&vm(), "tap7", &config(), true);
    assert!(plan.steps.iter().all(|step| step.optional));
    assert_eq!(
        shown(&plan),
        vec![
            "close console box",
            "run bhyvectl --destroy --vm=box",
            "bridge delete bridge0 tap7",
            "destroy interface tap7",
            "rm /var/priosun/vm/box/bhyve.pid",
            "rm /var/priosun/vm/box/tpm.pid",
            "rm /var/priosun/vm/box/tap",
            "run zfs destroy -f tank/var/priosun/seed/box",
        ]
    );
}

#[test]
fn stopped_vm_is_ended_and_cleared_away() {
    let plan = stop("box", &config(), &properties(), Some(" 42\n")).unwrap();
    assert_eq!(
        shown(&plan),
        vec!["terminate box 42", "await box /var/priosun/vm/box/bhyve.pid"]
    );
    for pid in [None, Some("none")] {
        let plan = stop("box", &config(), &properties(), pid).unwrap();
        assert_eq!(shown(&plan), Vec::<String>::new());
    }
    assert_eq!(
        message(stop("box", &config(), &without("os"), None)),
        "missing ZFS property priosun:os on tank/var/priosun/vm/box"
    );
    assert_eq!(
        shown(&stop_finish("box", &config(), Some("43\n"), Some("tap7\n"))),
        vec![
            "run kill -TERM 43",
            "bridge delete bridge0 tap7",
            "destroy interface tap7",
            "rm /var/priosun/vm/box/bhyve.pid",
            "rm /var/priosun/vm/box/tpm.pid",
            "rm /var/priosun/vm/box/tap",
        ]
    );
}

#[test]
fn end_of_a_vm_is_awaited() {
    assert!(matches!(wait_for_exit("box", true, 40000), Await::Done));
    assert!(matches!(wait_for_exit("box", false, 29999), Await::Again));
    match wait_for_exit("box", false, 30000) {
        Await::Failed(error) => {
            assert_eq!(error.message, "VM box did not stop within 30 seconds");
        }
        _ => panic!("the end is still awaited"),
    }
    assert!(matches!(wait_for_cleanup("box", true, 0), Await::Done));
    match wait_for_cleanup("box", false, 30001) {
        Await::Failed(error) => assert_eq!(
            error.message,
            "cleanup of VM box did not complete within 30 seconds"
        ),
        _ => panic!("the removal is still awaited"),
    }
}

#[test]
fn destroyed_vm_leaves_no_reference() {
    let files = Snapshot::new().with("/var/priosun/vm/box", true);
    let plan = destroy("box", &config(), &properties(), None, &files).unwrap();
    assert_eq!(shown(&plan), Vec::<String>::new());
    let known = vec![stored("app", Some("box,db"))];
    assert_eq!(
        shown(&destroy_finish("box", &config(), &known)),
        vec![
            "run zfs set priosun:dependencies=db tank/var/priosun/vm/app",
            "run zfs destroy -r -f tank/var/priosun/vm/box",
        ]
    );
    assert_eq!(
        shown(&destroy_seed("box", &config(), true)),
        vec!["run zfs destroy -f tank/var/priosun/seed/box"]
    );
    assert_eq!(shown(&destroy_seed("box", &config(), false)), Vec::<String>::new());
    assert_eq!(
        message(destroy("box", &config(), &properties(), None, &Snapshot::new())),
        "VM does not exist: box"
    );
    assert_eq!(
        message(destroy("..", &config(), &properties(), None, &files)),
        "invalid VM name: .."
    );
}

#[test]
fn running_vm_has_a_live_process() {
    let command = is_running(Some("42\n")).unwrap();
    assert_eq!(command.program, "kill");
    assert_eq!(command.args, vec!["-0", "42"]);
    assert!(is_running(None).is_none());
}

#[test]
fn console_needs_a_running_vm() {
    assert!(serial_console("box", true, true).is_ok());
    assert_eq!(message(serial_console("", true, true)), "invalid VM name: ");
    assert_eq!(message(serial_console("box", false, true)), "VM is not running: box");
    assert_eq!(
        message(serial_console("box", true, false)),
        "serial console is unavailable for VM box"
    );
}

#[test]
fn listed_vms_are_ordered_by_name() {
    let entry = |name: &str, directory: bool, running: bool| VmEntry {
        name: name.to_string(),
        directory,
        running,
    };
    let entries = vec![
        entry("web", true, true),
        entry("notes", false, false),
        entry("db", true, false),
        entry("gone", true, true),
        entry("..", true, true),
    ];
    let files = Snapshot::new()
        .with("/var/priosun/vm/web", true)
        .with("/var/priosun/vm/notes", false)
        .with("/var/priosun/vm/db", true)
        .with("/var/priosun/vm/..", true);
    assert_eq!(
        list(&entries, &files),
        vec![("db".to_string(), false), ("web".to_string(), true)]
    );
    assert!(list(&Vec::new(), &files).is_empty());
}

#[test]
fn destroyed_vm_leaves_a_valid_graph() {
    let known = vec![stored("app", Some("box,db")), stored("box", Some("db")), stored("db", None)];
    assert!(validate_all(&known).is_ok());
    let plan = destroy_finish("box", &config(), &known);
    assert_eq!(
        shown(&plan),
        vec![
            "run zfs set priosun:dependencies=db tank/var/priosun/vm/app",
            "run zfs destroy -r -f tank/var/priosun/vm/box",
        ]
    );
    assert!(validate_all(&vec![stored("app", Some("db")), stored("db", None)]).is_ok());
    assert_eq!(
        message(validate_all(&vec![stored("app", Some("box,db")), stored("db", None)])),
        "dependency does not exist: box"
    );
}

#[test]
fn exit_undoes_start() {
    let mut wanted = vm();
    wanted.tpm = true;
    let plan = start_inner(&wanted, &config(), "tap7", "", false, false, &Snapshot::new());
    let made = shown(&plan);
    let undone = shown(&after_exit(&wanted, "tap7", &config(), false));
    for (act, counter) in [
        ("bridge add bridge0 tap7", "bridge delete bridge0 tap7"),
        ("write /var/priosun/vm/box/tap \"tap7\"", "rm /var/priosun/vm/box/tap"),
        ("open console box", "close console box"),
        ("pid box /var/priosun/vm/box/bhyve.pid", "rm /var/priosun/vm/box/bhyve.pid"),
        ("tpm pid box /var/priosun/vm/box/tpm.pid", "rm /var/priosun/vm/box/tpm.pid"),
    ] {
        assert!(made.contains(&act.to_string()));
        assert!(undone.contains(&counter.to_string()));
    }
    assert!(undone.contains(&"destroy interface tap7".to_string()));
    assert!(undone.contains(&"stop tpm box".to_string()));
}
