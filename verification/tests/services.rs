//! Services and their manifests, the configuration, templates and passwords.

use priosun::config::{config_path, dataset, discover_zfs_pool, Config, ConfigFile};
use priosun::error::Error;
use priosun::plan::{Action, Plan};
use priosun::request::{optional_bool, optional_string, optional_strings, request_from_args};
use priosun::service::{
    attach_args, destroy_args, down_args, init, provision_args, provision_at, up_args,
    validate_name, Manifest, ManifestFile,
};
use priosun::snapshot::Snapshot;
use priosun::template::{template_dir, template_places};
use priosun::util::random_password;

fn line(action: &Action) -> String {
    match action {
        Action::Fail(reason) => format!("fail {reason}"),
        Action::CreateDir(path) => format!("mkdir {path}"),
        Action::CreateNewDir(path) => format!("mkdir new {path}"),
        Action::Write { path, text } => format!("write {path} {text:?}"),
        Action::RunIn { command, directory } => {
            format!("in {directory} run {} {}", command.program, command.args.join(" "))
        }
        other => format!("{other:?}"),
    }
}

fn shown(plan: &Plan) -> Vec<String> {
    plan.steps.iter().map(|step| line(&step.action)).collect()
}

fn message<T>(result: Result<T, Error>) -> String {
    match result {
        Ok(_) => panic!("there is no error"),
        Err(error) => error.message,
    }
}

fn loaded(container: &str, develop: bool, provisioners: &[&str]) -> ManifestFile {
    ManifestFile::Loaded(Manifest {
        name: "web".to_string(),
        container: container.to_string(),
        develop,
        provisioners: provisioners.iter().map(|name| name.to_string()).collect(),
    })
}

fn directory() -> Result<String, Error> {
    Ok("/srv/web".to_string())
}

#[test]
fn service_names_are_single_directories() {
    for name in ["web", "web-1", "a.b_c", ".."] {
        assert!(validate_name(name).is_ok());
    }
    for name in ["", "a/b", "a b", "caf\u{e9}"] {
        assert_eq!(
            message(validate_name(name)),
            format!("service name must be a single directory name: {name}")
        );
    }
}

#[test]
fn service_is_laid_out() {
    let plan = init("web", "jail", None, true, &Snapshot::new()).unwrap();
    assert_eq!(
        shown(&plan),
        vec![
            "mkdir new web",
            "write web/service.toml \"name = \\\"web\\\"\\ncontainer = \\\"jail\\\"\\ndevelop = true\\nprovisioners = []\\n\"",
            "write web/.gitignore \"ansible/group_vars/all\\nansible/inventory/inventory\\nansible/roles/*\\n!ansible/roles/.keep\\n\"",
        ]
    );
}

#[test]
fn service_with_ansible_is_laid_out() {
    let plan = init("web", "vm", Some("ansible"), false, &Snapshot::new()).unwrap();
    let steps = shown(&plan);
    assert!(steps[1].contains("container = \\\"vm\\\"\\ndevelop = false\\nprovisioners = [\\\"ansible\\\"]\\n"));
    assert_eq!(
        &steps[3..],
        &[
            "mkdir web/ansible/group_vars",
            "mkdir web/ansible/inventory",
            "mkdir web/ansible/roles",
            "write web/ansible/roles/.keep \"\"",
            "write web/ansible/requirements.yml \"- onelove-roles.freebsd-common\\n\"",
            "write web/ansible/site.yml \"---\\n- name: web provisioning\\n  hosts: web\\n  roles: []\\n\"",
        ]
    );
}

#[test]
fn service_init_errors_are_told_apart() {
    let none = Snapshot::new();
    assert_eq!(
        message(init("a/b", "jail", None, false, &none)),
        "service name must be a single directory name: a/b"
    );
    assert_eq!(message(init("web", "pod", None, false, &none)), "unsupported container: pod");
    assert_eq!(
        message(init("web", "jail", Some("salt"), false, &none)),
        "unsupported provisioner: salt"
    );
    let taken = Snapshot::new().with("web", false);
    assert_eq!(
        message(init("web", "jail", None, false, &taken)),
        "service directory already exists: web"
    );
}

#[test]
fn up_asks_for_the_service() {
    let args = up_args(loaded("jail", true, &["ansible"]), &directory()).unwrap();
    assert_eq!(
        args.join(" "),
        "up --container jail --develop true --service-dir /srv/web --provisioner ansible web"
    );
    let request = request_from_args(&args).unwrap();
    assert_eq!(optional_string(&request, "name").unwrap(), "web");
    assert_eq!(optional_string(&request, "service_dir").unwrap(), "/srv/web");
    assert_eq!(optional_bool(&request, "develop"), Some(true));
    assert_eq!(optional_strings(&request, "provisioners").unwrap(), vec!["ansible"]);
}

#[test]
fn down_asks_for_the_service() {
    let args = down_args(loaded("jail", false, &["ansible"]), &directory()).unwrap();
    assert_eq!(
        args.join(" "),
        "down --container jail --develop false --service-dir /srv/web web"
    );
    let request = request_from_args(&args).unwrap();
    assert_eq!(optional_string(&request, "name").unwrap(), "web");
    assert_eq!(optional_bool(&request, "develop"), Some(false));
}

#[test]
fn only_jail_services_are_run() {
    assert_eq!(
        message(up_args(loaded("vm", false, &[]), &directory())),
        "up currently supports jail services only; web uses a vm container"
    );
    assert_eq!(
        message(down_args(loaded("vm", false, &[]), &directory())),
        "down currently supports jail services only; web uses a vm container"
    );
    assert_eq!(
        message(destroy_args(loaded("vm", false, &[]))),
        "unsupported container in service manifest: vm"
    );
}

#[test]
fn service_directory_must_be_known() {
    let gone = Err(Error::new("gone".to_string()));
    assert_eq!(message(up_args(loaded("jail", false, &[]), &gone)), "gone");
    assert_eq!(message(provision_args(loaded("jail", false, &["ansible"]), &gone)), "gone");
}

#[test]
fn service_is_attached_and_destroyed_by_its_manifest() {
    assert_eq!(attach_args(loaded("vm", false, &[])).unwrap(), vec!["attach", "web"]);
    assert_eq!(
        destroy_args(loaded("jail", false, &[])).unwrap(),
        vec!["destroy", "jail", "web"]
    );
}

#[test]
fn manifest_errors_are_told_apart() {
    let missing = || ManifestFile::Unreadable("No such file".to_string());
    for (error, command) in [
        (message(up_args(missing(), &directory())), "up"),
        (message(down_args(missing(), &directory())), "down"),
        (message(provision_args(missing(), &directory())), "provision"),
        (message(attach_args(missing())), "attach"),
        (message(destroy_args(missing())), "destroy"),
    ] {
        assert_eq!(
            error,
            format!("{command} must be run from an initialized service directory: No such file")
        );
    }
    let invalid = ManifestFile::Invalid("missing field `name`".to_string());
    assert_eq!(
        message(attach_args(invalid)),
        "failed to parse service.toml: missing field `name`"
    );
}

#[test]
fn provision_names_its_provisioners() {
    let args = provision_args(loaded("jail", false, &["ansible", "ansible"]), &directory());
    assert_eq!(
        args.unwrap().join(" "),
        "provision --service-dir /srv/web --container jail --name web --provisioner ansible --provisioner ansible"
    );
    assert_eq!(
        message(provision_args(loaded("jail", false, &[]), &directory())),
        "no provisioner is configured in service.toml"
    );
    assert_eq!(
        message(provision_args(loaded("jail", false, &["ansible", "salt", "x"]), &directory())),
        "unsupported provisioner in service.toml: salt"
    );
}

#[test]
fn provisioners_are_applied_in_order() {
    let files = Snapshot::new().with("/srv/web", true);
    let wanted = vec!["ansible".to_string(), "salt".to_string()];
    let plan = provision_at("/srv/web", &wanted, &files).unwrap();
    assert_eq!(
        shown(&plan),
        vec![
            "in /srv/web run ansible-galaxy install -r ansible/requirements.yml -p ansible/roles",
            "in /srv/web run ansible-playbook -i ansible/inventory/inventory ansible/site.yml",
            "fail unsupported provisioner: salt",
        ]
    );
    assert_eq!(
        message(provision_at("/srv/web", &Vec::new(), &files)),
        "no provisioner was supplied"
    );
    assert_eq!(
        message(provision_at("/srv/db", &wanted, &files)),
        "service directory does not exist: /srv/db"
    );
}

#[test]
fn configuration_has_defaults() {
    let config = Config::default();
    assert_eq!(config.bridge, "jails");
    assert_eq!(config.bridge_ip, "172.16.0.254");
    assert_eq!(config.network_ip, "172.16.0.253");
    assert_eq!(config.ipv6_prefix, "fd10:6c79:8ae5:8b91:");
    assert_eq!((config.bridge_ip6.as_str(), config.network_ip6.as_str()), (":1", ":2"));
    assert_eq!(config.dhcp, "dhcpcd");
    assert_eq!(config.pkg_proxy, "no");
    assert_eq!(config.resolv_conf, "/etc/resolv.conf");
    assert_eq!(config.vm_firmware, "/usr/local/share/uefi-firmware/BHYVE_UEFI.fd");
    assert!(config.use_ipv4 && config.use_ipv6);
    assert!(config.zfs_pool.is_empty());
    assert!(config.lacks_pool());
}

#[test]
fn datasets_lie_in_the_pool() {
    let mut config = Config::default();
    config.zfs_pool = "tank".to_string();
    assert_eq!(dataset(&config, "/var/priosun"), "tank/var/priosun");
    assert!(!config.lacks_pool());
}

#[test]
fn configuration_is_chosen_by_an_argument() {
    let words = |text: &str| text.split(' ').map(str::to_string).collect::<Vec<String>>();
    assert_eq!(config_path(&words("priosun --config /etc/p.toml list")).unwrap(), "/etc/p.toml");
    assert!(config_path(&words("priosun list --config")).is_none());
    assert!(config_path(&words("priosun list")).is_none());
    assert_eq!(config_path(&words("p --config a --config b")).unwrap(), "a");
}

fn unasked() -> Result<String, Error> {
    Err(Error::new("the pool was asked for".to_string()))
}

#[test]
fn configuration_is_loaded() {
    let mut given = Config::default();
    given.zfs_pool = "tank".to_string();
    given.bridge = "b".to_string();
    let file = ConfigFile::Loaded(given);
    assert!(!file.lacks_pool());
    let config = Config::load("/etc/p.toml", file, unasked()).unwrap();
    assert_eq!((config.zfs_pool.as_str(), config.bridge.as_str()), ("tank", "b"));
    assert!(ConfigFile::Absent.lacks_pool());
    let found = Config::load("/etc/p.toml", ConfigFile::Absent, Ok("zroot".to_string())).unwrap();
    assert_eq!(found.zfs_pool, "zroot");
    assert_eq!(message(Config::load("/etc/p.toml", ConfigFile::Absent, unasked())), "the pool was asked for");
}

#[test]
fn configuration_errors_are_told_apart() {
    let unreadable = ConfigFile::Unreadable("denied".to_string());
    assert_eq!(
        message(Config::load("/etc/p.toml", unreadable, unasked())),
        "failed to read /etc/p.toml: denied"
    );
    let invalid = ConfigFile::Invalid("expected `=`".to_string());
    assert_eq!(
        message(Config::load("/etc/p.toml", invalid, unasked())),
        "failed to parse /etc/p.toml as TOML: expected `=`"
    );
}

#[test]
fn pool_is_found_where_there_is_one() {
    assert_eq!(
        discover_zfs_pool(true, b"zroot\t10G\tONLINE\n\n", b"").unwrap(),
        "zroot"
    );
    assert_eq!(message(discover_zfs_pool(true, b" \n", b"")), "no ZFS pools are available");
    assert_eq!(
        message(discover_zfs_pool(true, b"a 1\nb 2\n", b"")),
        "zfs_pool is not set and multiple ZFS pools are available"
    );
    assert_eq!(
        message(discover_zfs_pool(false, b"", b" \xffno module\n")),
        "zpool list -H failed: \u{fffd}no module"
    );
}

#[test]
fn templates_are_found() {
    let none = Snapshot::new();
    assert_eq!(template_dir(Some("/opt/p"), Some("/bin"), &none), "/opt/p/templates");
    assert_eq!(
        template_places("/bin"),
        vec!["/bin/../share/priosun/templates", "/bin/templates"]
    );
    let shared = Snapshot::new().with("/bin/../share/priosun/templates", true);
    assert_eq!(
        template_dir(None, Some("/bin"), &shared),
        "/bin/../share/priosun/templates"
    );
    let beside = Snapshot::new().with("/bin/templates", true);
    assert_eq!(template_dir(None, Some("/bin"), &beside), "/bin/templates");
    let fallback = "/usr/local/share/priosun/templates";
    assert_eq!(template_dir(None, Some("/bin"), &none), fallback);
    assert_eq!(template_dir(None, None, &beside), fallback);
}

#[test]
fn passwords_are_made_of_clear_characters() {
    let mut bytes = [0_u8; 32];
    bytes[1] = 11;
    bytes[2] = 56;
    bytes[3] = 57;
    bytes[4] = 255;
    let password = random_password(&bytes);
    assert_eq!(password.len(), 32);
    assert_eq!(&password[..5], "am9aC");
    for unclear in ['l', 'I', 'O', '0', '1'] {
        let mut all = String::new();
        for start in 0..8_u8 {
            let mut block = [0_u8; 32];
            for (offset, byte) in block.iter_mut().enumerate() {
                *byte = start * 32 + offset as u8;
            }
            all.push_str(&random_password(&block));
        }
        assert!(!all.contains(unclear));
    }
}
