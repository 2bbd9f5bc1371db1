//! The daemon, the client, and the commands that they run.

use nvtree::{
    nvtree_add, nvtree_bool, nvtree_create, nvtree_find, nvtree_number, nvtree_string, Nvtpair,
    Nvtree, Nvtvalue,
};
use priosun::client::{
    create_dataset, create_volume, destroy_dataset, expand, invocation_args, jail_rows,
    lifecycle_kind, print_response, print_table, resource_rows, set_enabled, vm_rows, zfs_name,
    zfs_rows, Invocation, Kind,
};
use priosun::config::Config;
use priosun::daemon::{
    self, answer, attached_jobs, child_answer, client_args, create_vm, daemon_args, dataset_names,
    ensure_datasets, event_response, execute_attach, execute_jail_request, execute_list,
    execute_provision_request, execute_vm_attach, handle, is_client_disconnect, list_answer,
    mount_development_dir, provision_service, relay_login_input, service_dataset, session_answer,
    start_enabled, status_text, unmount_development_dir, zfs_list, zfs_names, DisconnectCodes, Job,
    Listing, Relay, Route, Target,
};
use priosun::dependency::{ResourceKind, Stored};
use priosun::error::Error;
use priosun::jail::JailInfo;
use priosun::output::{nvtree_to_table, response_table};
use priosun::plan::{command, Action, Command, Plan};
use priosun::protocol::{
    datasets_success, error, jails_success, request_from_args, serial_console_event, success,
    vms_success, volumes_success,
};
use priosun::request::{optional_number, optional_string};
use priosun::service::{Manifest, ManifestFile};
use priosun::snapshot::Snapshot;
use priosun::util::cmd::{
    announce_command, capture, deliver, message as say, read_stream, run, run_append_log,
    run_in_dir, run_stdout_to_file, run_with_stdin, silent, with_stream, CommandEvent,
    CommandStream, Execution, Output, Recorder,
};

fn line(action: &Action) -> String {
    match action {
        Action::Message(text) => format!("say {text}"),
        Action::Fail(reason) => format!("fail {reason}"),
        Action::CreateDir(path) => format!("mkdir {path}"),
        Action::Run(command) => format!("run {} {}", command.program, command.args.join(" ")),
        Action::RunIn { command, directory } => format!("in {directory} run {}", command.program),
        other => format!("{other:?}"),
    }
}

fn shown(plan: &Plan) -> Vec<String> {
    plan.steps.iter().map(|step| line(&step.action)).collect()
}

fn message<T>(result: Result<T, Error>) -> String {
    match result {
        Ok(_) => panic!("there is no error"),
        Err(error) => error.message,
    }
}

fn config() -> Config {
    let mut config = Config::default();
    config.zfs_pool = "tank".to_string();
    config
}

fn words(text: &str) -> Vec<String> {
    text.split(' ').map(str::to_string).collect()
}

fn request(text: &str) -> Nvtree {
    request_from_args(&words(text)).unwrap()
}

fn nested<'a>(tree: &'a Nvtree, name: &str) -> &'a Nvtree {
    match &nvtree_find(tree, name).unwrap().value {
        Nvtvalue::Nested(tree) => tree,
        _ => panic!("the field holds no tree"),
    }
}

fn work(job: &Job) -> String {
    match job {
        Job::CreateJail(options) => format!(
            "create jail {} set={:?} version={:?} base={} from={:?} key={:?}",
            options.name, options.set, options.version, options.base, options.from_base,
            options.ssh_key
        ),
        Job::CreateVm { name, options } => {
            format!("create vm {name} {} {} {}", options.os, options.disk, options.cloud_init)
        }
        Job::SetEnabled { name, enabled } => format!("enable {name} {enabled}"),
        Job::MountSource { name, directory } => format!("mount {directory} in {name}"),
        Job::UnmountSource(name) => format!("unmount in {name}"),
        Job::StartJail(name) => format!("start jail {name}"),
        Job::StartVm { name, seed } => format!("start vm {name} {seed}"),
        Job::StopJail(name) => format!("stop jail {name}"),
        Job::StopVm(name) => format!("stop vm {name}"),
        Job::DestroyJail(name) => format!("destroy jail {name}"),
        Job::DestroyBase(name) => format!("destroy base {name}"),
        Job::DestroyVm(name) => format!("destroy vm {name}"),
        Job::Provision { directory, container, name, provisioners } => {
            format!("provision {container} {name} in {directory} {}", provisioners.join(","))
        }
        Job::Fail(reason) => format!("fail {reason}"),
    }
}

fn jobs(tree: &Nvtree, files: &Snapshot, running: bool, provisioned: Option<&str>) -> Vec<String> {
    let provisioned = provisioned.map(str::to_string);
    execute_jail_request(tree, files, running, &provisioned)
        .unwrap()
        .iter()
        .map(work)
        .collect()
}

fn some_files() -> Snapshot {
    Snapshot::new()
        .with("/var/priosun/jail/web", true)
        .with("/var/priosun/vm/box", true)
}

// ---------------------------------------------------------------------------
// Commands
// ---------------------------------------------------------------------------

fn ls() -> Command {
    command("ls").arg("-l").arg("/tmp")
}

fn finished(code: Option<i32>) -> Execution {
    Execution::Finished(Output { code, stdout: b"out".to_vec(), stderr: b" err\n".to_vec() })
}

fn listened() -> Recorder {
    let mut recorder = silent();
    recorder.streaming = true;
    recorder
}

#[test]
fn listener_is_told_what_happens() {
    let recorder = announce_command(say(listened(), "hello"), &ls());
    let (events, recorder) = deliver(recorder);
    assert_eq!(events.len(), 2);
    assert_eq!((events[0].stream, events[0].data.as_slice()), (CommandStream::Message, &b"hello"[..]));
    assert_eq!(events[1].stream, CommandStream::Command);
    assert_eq!((events[1].program.as_str(), events[1].args.len()), ("ls", 2));
    assert!(recorder.pending.is_empty());
    let (events, _) = deliver(say(silent(), "hello"));
    assert!(events.is_empty());
}

#[test]
fn output_is_taken_up_in_pieces() {
    let (output, event) = read_stream(b"ab".to_vec(), b"cd", true);
    assert_eq!(output, b"abcd".to_vec());
    assert_eq!((event.stream, event.data), (CommandStream::Stdout, b"cd".to_vec()));
    let (_, event) = read_stream(Vec::new(), b"x", false);
    assert_eq!(event.stream, CommandStream::Stderr);
}

#[test]
fn listener_leaves_with_the_operation() {
    let (result, recorder) = with_stream(silent(), |recorder| {
        assert!(recorder.streaming);
        (Ok(7), say(recorder, "hello"))
    });
    assert_eq!(result.unwrap(), 7);
    assert!(!recorder.streaming);
    assert_eq!(deliver(recorder).0.len(), 1);
    let (result, recorder) = with_stream(silent(), |recorder| {
        (Err::<(), Error>(Error::new("broken".to_string())), recorder)
    });
    assert_eq!(message(result), "broken");
    assert!(!recorder.streaming);
}

#[test]
fn captured_output_is_headed_by_its_command() {
    let (result, recorder) = capture(silent(), |recorder| {
        let (first, recorder) = run(recorder, &ls(), finished(Some(0)));
        assert!(first.is_ok());
        let (second, recorder) = run_in_dir(recorder, &ls(), "/srv", finished(Some(0)));
        (second.map(|_| ()), recorder)
    });
    let (_, transcript) = result.unwrap();
    assert_eq!(
        transcript.stdout,
        b"$ ls -l /tmp\nout$ (cd /srv && ls -l /tmp)\nout".to_vec()
    );
    assert_eq!(transcript.stderr, b" err\n err\n".to_vec());
    assert!(recorder.transcript.is_none());
}

#[test]
fn output_goes_one_way() {
    let (_, recorder) = capture(listened(), |recorder| {
        let (result, recorder) = run(recorder, &ls(), finished(Some(0)));
        assert!(recorder.transcript.as_ref().unwrap().stdout.is_empty());
        (result.map(|_| ()), recorder)
    });
    assert!(recorder.streaming);
}

#[test]
fn failed_commands_are_told_apart() {
    let failure = |execution| message(run(silent(), &ls(), execution).0);
    assert_eq!(
        failure(finished(Some(1))),
        "command failed: ls -l /tmp (exit code: Some(1))\nstderr: err"
    );
    assert_eq!(
        failure(finished(None)),
        "command failed: ls -l /tmp (exit code: None)\nstderr: err"
    );
    assert_eq!(
        failure(Execution::Unstarted("not found".to_string())),
        "failed to execute ls -l /tmp: not found"
    );
    assert_eq!(failure(Execution::Broken("pipe".to_string())), "pipe");
    let (result, _) = run_with_stdin(silent(), &ls(), finished(Some(-2)));
    assert_eq!(
        message(result),
        "command failed: ls -l /tmp (exit code: Some(-2))\nstderr: err"
    );
}

#[test]
fn failed_command_in_a_directory_names_it() {
    let (result, _) = run_in_dir(silent(), &ls(), "/srv", finished(Some(1)));
    assert_eq!(
        message(result),
        "command failed in /srv: ls -l /tmp (exit code: Some(1))\nstderr: err"
    );
    let (result, _) = run_in_dir(listened(), &ls(), "/srv", finished(Some(1)));
    assert_eq!(
        message(result),
        "command failed: ls -l /tmp (exit code: Some(1))\nstderr: err"
    );
}

#[test]
fn failed_redirections_are_told_apart() {
    assert!(run_stdout_to_file(&ls(), "/dev/disk", finished(Some(0))).is_ok());
    let unopened = Execution::Unopened("denied".to_string());
    assert_eq!(
        message(run_stdout_to_file(&ls(), "/dev/disk", unopened)),
        "failed to open /dev/disk: denied"
    );
    assert_eq!(
        message(run_stdout_to_file(&ls(), "/dev/disk", finished(Some(3)))),
        "command failed: ls -l /tmp (exit code: Some(3))\nstderr: err"
    );
    let unopened = Execution::Unopened("denied".to_string());
    assert_eq!(
        message(run_append_log(&ls(), "/var/log/x", unopened)),
        "failed to open log /var/log/x: denied"
    );
    assert_eq!(
        message(run_append_log(&ls(), "/var/log/x", finished(Some(3)))),
        "command failed: ls -l /tmp (exit code: Some(3)); see /var/log/x"
    );
}

// ---------------------------------------------------------------------------
// The daemon
// ---------------------------------------------------------------------------

#[test]
fn daemon_creates_the_datasets_it_lacks() {
    assert_eq!(
        dataset_names(&config()),
        vec![
            "tank/var",
            "tank/var/priosun",
            "tank/var/priosun/base",
            "tank/var/priosun/jail",
            "tank/var/priosun/vm",
            "tank/var/priosun/seed",
            "tank/var/priosun/images",
        ]
    );
    let none = [Ok(false), Ok(false), Ok(false), Ok(false), Ok(false), Ok(false), Ok(false)];
    assert_eq!(
        shown(&ensure_datasets(&config(), &none)),
        vec![
            "run zfs create -o mountpoint=none tank/var",
            "run zfs create -o mountpoint=/var/priosun tank/var/priosun",
            "run zfs set compression=lz4 tank/var/priosun",
            "run zfs create tank/var/priosun/base",
            "run zfs create tank/var/priosun/jail",
            "run zfs create tank/var/priosun/vm",
            "run zfs create tank/var/priosun/seed",
            "run zfs create tank/var/priosun/images",
        ]
    );
    let all = [Ok(true), Ok(true), Ok(true), Ok(true), Ok(true), Ok(true), Ok(true)];
    assert_eq!(
        shown(&ensure_datasets(&config(), &all)),
        vec!["run zfs set compression=lz4 tank/var/priosun"]
    );
    let unknown = [
        Err(Error::new("no zfs".to_string())),
        Ok(true),
        Ok(true),
        Ok(true),
        Ok(true),
        Ok(true),
        Ok(true),
    ];
    assert_eq!(
        shown(&ensure_datasets(&config(), &unknown))[0],
        "fail failed to check ZFS dataset tank/var: no zfs"
    );
}

fn stored(kind: ResourceKind, name: &str, value: Option<&str>) -> Stored {
    Stored {
        kind,
        name: name.to_string(),
        dataset: format!("tank/{name}"),
        value: value.map(str::to_string),
    }
}

#[test]
fn daemon_starts_what_is_enabled() {
    let dependencies = vec![
        stored(ResourceKind::Jail, "web", Some("box")),
        stored(ResourceKind::Vm, "box", None),
    ];
    let enabled = vec![
        stored(ResourceKind::Jail, "web", None),
        stored(ResourceKind::Jail, "old", Some("false")),
        stored(ResourceKind::Vm, "box", Some("true")),
    ];
    let jobs: Vec<String> = start_enabled(&dependencies, &enabled).unwrap().iter().map(work).collect();
    assert_eq!(jobs, vec!["start jail web", "start vm box false"]);
    let circle = vec![
        stored(ResourceKind::Jail, "web", Some("box")),
        stored(ResourceKind::Vm, "box", Some("web")),
    ];
    assert!(message(start_enabled(&circle, &enabled)).starts_with("cyclic resource dependency"));
    let odd = vec![stored(ResourceKind::Jail, "web", Some("yes"))];
    assert_eq!(
        message(start_enabled(&dependencies, &odd)),
        "invalid boolean ZFS property priosun:enabled=yes: provided string was not `true` or `false`"
    );
}

#[test]
fn requests_are_routed() {
    assert_eq!(handle(&request("network-init")), Route::NetworkInit);
    assert_eq!(handle(&request("start web --attach")), Route::StartAttach);
    assert_eq!(handle(&request("start web")), Route::Plain);
    assert_eq!(handle(&request("create jail web --start --attach")), Route::StartAttach);
    assert_eq!(handle(&request("create jail web --start")), Route::Plain);
    assert_eq!(handle(&request("attach web")), Route::Attach);
    assert_eq!(handle(&request("list jails")), Route::List);
    assert_eq!(handle(&request("version")), Route::Plain);
    let mut tree = nvtree_create(0);
    nvtree_add(&mut tree, nvtree_string("command", "provision"));
    assert_eq!(handle(&tree), Route::Provision);
}

#[test]
fn create_requests_become_jobs() {
    let none = Snapshot::new();
    assert_eq!(
        jobs(&request("create jail web --set s --version 14.2 --base b --ssh-key k --start"), &none, false, None),
        vec![
            "create jail web set=Some(\"s\") version=Some(\"14.2\") base=false from=Some(\"b\") key=Some(\"k\")",
            "start jail web",
        ]
    );
    assert_eq!(
        jobs(&request("create base jail common"), &none, false, None),
        vec!["create jail common set=None version=None base=true from=None key=None"]
    );
    assert_eq!(
        jobs(&request("create vm box --disk 1G --os debian"), &none, false, None),
        vec!["create vm box debian 1G false"]
    );
    assert_eq!(
        jobs(&request("create vm box --disk 1G --os debian --cloud-init"), &none, false, None),
        vec!["create vm box debian 1G true", "start vm box true"]
    );
}

#[test]
fn lifecycle_requests_become_jobs() {
    let files = some_files();
    let one = |text: &str| jobs(&request(text), &files, false, None);
    assert_eq!(one("start web"), vec!["start jail web"]);
    assert_eq!(one("start box"), vec!["start vm box false"]);
    assert_eq!(one("stop web"), vec!["stop jail web"]);
    assert_eq!(one("stop box"), vec!["stop vm box"]);
    assert_eq!(one("destroy jail web"), vec!["destroy jail web"]);
    assert_eq!(one("destroy base jail web"), vec!["destroy base web"]);
    assert_eq!(one("destroy vm box"), vec!["destroy vm box"]);
}

#[test]
fn other_requests_go_to_the_client() {
    for text in [
        "start none",
        "create dataset d",
        "create base vm b",
        "destroy dataset d",
        "enable web",
        "dependencies jail web db",
        "version",
    ] {
        assert!(execute_jail_request(&request(text), &some_files(), false, &None).is_none());
    }
    assert!(execute_jail_request(&nvtree_create(0), &some_files(), false, &None).is_none());
}

#[test]
fn up_brings_a_service_up() {
    let tree = request("up --service-dir /srv --provisioner ansible app");
    assert_eq!(
        jobs(&tree, &Snapshot::new(), false, None),
        vec![
            "create jail app set=None version=None base=false from=None key=None",
            "enable app true",
            "start jail app",
            "provision jail app in /srv ansible",
        ]
    );
    let files = Snapshot::new().with("/var/priosun/jail/app", true);
    assert_eq!(
        jobs(&tree, &files, true, Some("false")),
        vec!["enable app true", "start jail app", "provision jail app in /srv ansible"]
    );
}

#[test]
fn development_mounts_the_source() {
    let tree = request("up --develop true --service-dir /srv app");
    let files = Snapshot::new().with("/var/priosun/jail/app", true);
    assert_eq!(
        jobs(&tree, &files, false, None),
        vec!["enable app false", "mount /srv in app", "start jail app"]
    );
    assert_eq!(jobs(&tree, &files, true, None), vec!["enable app false", "start jail app"]);
}

#[test]
fn service_is_provisioned_once() {
    let tree = request("up --service-dir /srv --provisioner ansible app");
    let files = Snapshot::new().with("/var/priosun/jail/app", true);
    assert_eq!(
        jobs(&tree, &files, true, Some("true")),
        vec!["enable app true", "start jail app"]
    );
    assert_eq!(
        jobs(&tree, &files, true, Some("maybe")).last().unwrap(),
        "fail invalid boolean ZFS property priosun:provisioned=maybe: provided string was not `true` or `false`"
    );
}

#[test]
fn down_takes_a_service_down() {
    let files = Snapshot::new();
    assert_eq!(
        jobs(&request("down --service-dir /srv app"), &files, false, None),
        vec!["stop jail app"]
    );
    assert_eq!(
        jobs(&request("down --develop true --service-dir /srv app"), &files, false, None),
        vec!["stop jail app", "unmount in app"]
    );
}

#[test]
fn incomplete_requests_fail() {
    let mut tree = nvtree_create(0);
    nvtree_add(&mut tree, nvtree_string("command", "up"));
    assert_eq!(
        jobs(&tree, &Snapshot::new(), false, None),
        vec!["fail request is missing string field name"]
    );
    nvtree_add(&mut tree, nvtree_string("name", "app"));
    assert_eq!(
        jobs(&tree, &Snapshot::new(), false, None),
        vec!["fail request is missing boolean field develop"]
    );
    nvtree_add(&mut tree, nvtree_string("command", "destroy"));
    nvtree_add(&mut tree, nvtree_string("type", "jail"));
    assert_eq!(jobs(&tree, &Snapshot::new(), false, None), vec!["destroy jail app"]);
}

#[test]
fn vm_options_have_defaults() {
    let options = create_vm(&request("create vm box --disk 1G --os debian")).unwrap();
    assert_eq!((options.vnc_width, options.vnc_height, options.cpus), (1024, 768, 1));
    assert_eq!((options.vnc_bind.as_str(), options.memory.as_str()), ("127.0.0.1", "1G"));
    assert_eq!(options.vnc_port, None);
    let borrowed = options.options();
    assert_eq!((borrowed.disk, borrowed.os, borrowed.cpus), ("1G", "debian", 1));
}

#[test]
fn vm_options_are_in_range() {
    let refused = |text: &str| message(create_vm(&request(text)));
    let base = "create vm box --disk 1G --os debian";
    let range = "out of range integral type conversion attempted";
    assert_eq!(
        refused(&format!("{base} --vnc-port 65536")),
        format!("vnc_port is out of range: {range}")
    );
    assert_eq!(
        refused(&format!("{base} --vnc-width 4294967296")),
        format!("vnc_width is out of range: {range}")
    );
    assert_eq!(
        refused(&format!("{base} --vnc-height 4294967296")),
        format!("vnc_height is out of range: {range}")
    );
    assert_eq!(
        refused(&format!("{base} --cpus 4294967296")),
        format!("cpus is out of range: {range}")
    );
    let mut tree = nvtree_create(0);
    nvtree_add(&mut tree, nvtree_number("vnc_port", 5900));
    assert_eq!(message(create_vm(&tree)), "request is missing string field disk");
}

#[test]
fn provisioning_is_recorded() {
    assert_eq!(service_dataset("jail", "web", &config()).unwrap(), "tank/var/priosun/jail/web");
    assert_eq!(service_dataset("vm", "box", &config()).unwrap(), "tank/var/priosun/vm/box");
    assert_eq!(message(service_dataset("pod", "x", &config())), "unsupported container: pod");
    let files = Snapshot::new().with("/srv", true);
    let provisioners = vec!["ansible".to_string()];
    let plan = provision_service("/srv", "jail", "web", &provisioners, &config(), &files);
    assert_eq!(
        shown(&plan.unwrap()),
        vec![
            "in /srv run ansible-galaxy",
            "in /srv run ansible-playbook",
            "run zfs set priosun:provisioned=true tank/var/priosun/jail/web",
        ]
    );
    let plan = provision_service("/none", "jail", "web", &provisioners, &config(), &files);
    assert_eq!(message(plan), "service directory does not exist: /none");
}

#[test]
fn provision_request_becomes_a_job() {
    let mut tree = nvtree_create(0);
    assert_eq!(
        message(execute_provision_request(&tree)),
        "request is missing string field service_dir"
    );
    nvtree_add(&mut tree, nvtree_string("service_dir", "/srv"));
    assert_eq!(
        message(execute_provision_request(&tree)),
        "request is missing string array field provisioners"
    );
    let list = vec!["ansible".to_string()];
    let value = Nvtvalue::StringArray(list);
    nvtree_add(&mut tree, Nvtpair { flags: 0, name: "provisioners".to_string(), value });
    nvtree_add(&mut tree, nvtree_string("container", "jail"));
    nvtree_add(&mut tree, nvtree_string("name", "web"));
    assert_eq!(
        work(&execute_provision_request(&tree).unwrap()),
        "provision jail web in /srv ansible"
    );
}

#[test]
fn source_is_mounted_in_the_jail() {
    let files = Snapshot::new().with("/srv", true);
    assert_eq!(
        shown(&mount_development_dir("web", "/srv", &files).unwrap()),
        vec![
            "mkdir /var/priosun/jail/web/usr/src",
            "say Mounting /srv at /var/priosun/jail/web/usr/src",
            "run mount -t nullfs /srv /var/priosun/jail/web/usr/src",
        ]
    );
    assert_eq!(
        message(mount_development_dir("web", "/none", &files)),
        "development service directory does not exist: /none"
    );
    let plan = unmount_development_dir("web");
    assert_eq!(shown(&plan), vec!["run umount /var/priosun/jail/web/usr/src"]);
    assert!(plan.steps[0].optional);
}

#[test]
fn attaching_needs_a_resource() {
    assert!(matches!(
        execute_attach(&request("attach box"), &some_files()).unwrap(),
        Target::Vm(name) if name == "box"
    ));
    assert!(matches!(
        execute_attach(&request("attach web"), &some_files()).unwrap(),
        Target::Jail(name) if name == "web"
    ));
    assert_eq!(
        message(execute_attach(&nvtree_create(0), &some_files())),
        "request is missing string field name"
    );
    assert!(execute_vm_attach("box", true).is_ok());
    assert_eq!(message(execute_vm_attach("box", false)), "VM is not running: box");
    assert_eq!(message(attached_jobs(None)), "failed to start resource");
    assert_eq!(attached_jobs(Some(Vec::new())).unwrap().len(), 0);
}

#[test]
fn login_input_is_relayed() {
    let mut tree = nvtree_create(0);
    assert!(matches!(relay_login_input(&tree), Relay::Ignore));
    nvtree_add(&mut tree, nvtree_string("event", "stdin"));
    assert!(matches!(relay_login_input(&tree), Relay::Ignore));
    nvtree_add(&mut tree, nvtree_string("data", "ls\n"));
    assert!(matches!(relay_login_input(&tree), Relay::Write(text) if text == "ls\n"));
    nvtree_add(&mut tree, nvtree_string("event", "stdin_eof"));
    assert!(matches!(relay_login_input(&tree), Relay::End));
}

fn event(stream: CommandStream, data: &[u8]) -> CommandEvent {
    CommandEvent {
        program: "ls".to_string(),
        args: vec!["-l".to_string(), "/tmp".to_string()],
        stream,
        data: data.to_vec(),
    }
}

#[test]
fn events_are_sent_to_the_client() {
    let tree = event_response(&event(CommandStream::Command, b""));
    assert_eq!(optional_string(nested(&tree, "event"), "command").unwrap(), "ls -l /tmp");
    let tree = event_response(&event(CommandStream::Stdout, b"a\xffb"));
    assert_eq!(optional_string(nested(&tree, "event"), "stdout").unwrap(), "a\u{fffd}b");
    let tree = event_response(&event(CommandStream::Stderr, b"e"));
    assert_eq!(optional_string(nested(&tree, "event"), "stderr").unwrap(), "e");
    assert!(optional_string(nested(&tree, "event"), "command").is_none());
    let tree = event_response(&event(CommandStream::Message, b"m"));
    assert_eq!(optional_string(nested(&tree, "event"), "message").unwrap(), "m");
}

#[test]
fn requests_are_answered() {
    let tree = answer(Ok(()));
    assert_eq!(optional_number(nested(&tree, "response"), "status"), Some(0));
    let tree = answer(Err(Error::new("broken".to_string())));
    assert_eq!(optional_string(&tree, "error").unwrap(), "broken");
    let tree = session_answer(None);
    assert_eq!(optional_number(nested(&tree, "response"), "status"), Some(1));
    let tree = session_answer(Some(126));
    assert_eq!(optional_number(nested(&tree, "response"), "status"), Some(126));
    let tree = child_answer(Some(2), b"out", b"err");
    assert_eq!(optional_number(nested(&tree, "response"), "status"), Some(2));
    assert_eq!(optional_string(nested(&tree, "response"), "stdout").unwrap(), "out");
    let tree = child_answer(None, b"", b"");
    assert_eq!(optional_number(nested(&tree, "response"), "status"), Some(1));
}

#[test]
fn programs_are_called_with_the_configuration() {
    assert_eq!(
        client_args(&request("enable web"), Some("/etc/p.toml")).unwrap().join(" "),
        "enable web --config /etc/p.toml"
    );
    assert_eq!(client_args(&request("enable web"), None).unwrap().join(" "), "enable web");
    assert_eq!(
        message(client_args(&nvtree_create(0), None)),
        "request is missing string field command"
    );
    assert_eq!(daemon_args(Some("/etc/p.toml")).join(" "), "--no-daemon --config /etc/p.toml");
    assert_eq!(daemon_args(None), vec!["--no-daemon"]);
}

#[test]
fn clients_may_go_away() {
    let codes = DisconnectCodes { broken_pipe: 32, reset: 54, not_connected: 57 };
    assert!(is_client_disconnect(&vec![32], &codes));
    assert!(is_client_disconnect(&vec![2, 54], &codes));
    assert!(is_client_disconnect(&vec![57], &codes));
    assert!(!is_client_disconnect(&vec![2], &codes));
    assert!(!is_client_disconnect(&Vec::new(), &codes));
}

#[test]
fn lists_are_told_apart() {
    assert_eq!(execute_list(&request("list datasets")).unwrap(), Listing::Datasets);
    assert_eq!(execute_list(&request("list volumes")).unwrap(), Listing::Volumes);
    assert_eq!(execute_list(&request("list jails")).unwrap(), Listing::Jails);
    assert_eq!(execute_list(&request("list vms")).unwrap(), Listing::Vms);
    assert_eq!(
        message(execute_list(&request("list all"))),
        "list all must be expanded by the client"
    );
    assert_eq!(
        message(execute_list(&request("list pools"))),
        "unsupported list resource: pools"
    );
    assert_eq!(zfs_list(false).args.join(" "), "list -H -o name");
    assert_eq!(zfs_list(true).args.join(" "), "list -H -o name -t volume");
}

#[test]
fn listed_datasets_become_rows() {
    assert_eq!(zfs_names("tank\n  \n tank/var \n"), vec!["tank", "tank/var"]);
    let rows = daemon::zfs_rows(true, b"tank\n\ntank/var\n", b"").unwrap();
    assert_eq!(rows.len(), 2);
    assert_eq!(optional_string(&rows[1], "name").unwrap(), "tank/var");
    assert_eq!(message(daemon::zfs_rows(false, b"", b" no zfs\n")), "zfs failed: no zfs");
}

fn jail_info() -> JailInfo {
    JailInfo {
        name: "web".to_string(),
        hostname: "web.host".to_string(),
        ips: "192.0.2.2".to_string(),
        status: "running".to_string(),
    }
}

#[test]
fn listed_resources_become_rows() {
    let rows = daemon::jail_rows(&vec![jail_info()]);
    assert_eq!(optional_string(&rows[0], "hostname").unwrap(), "web.host");
    assert_eq!(optional_string(&rows[0], "ips").unwrap(), "192.0.2.2");
    assert_eq!(optional_string(&rows[0], "status").unwrap(), "running");
    let rows = daemon::vm_rows(&vec![("box".to_string(), false)]);
    assert_eq!(optional_string(&rows[0], "name").unwrap(), "box");
    assert_eq!(optional_string(&rows[0], "status").unwrap(), "stopped");
    assert_eq!(status_text(true), "running");
    let tree = list_answer(Listing::Vms, rows);
    assert!(nvtree_find(nested(&tree, "response"), "vms").is_some());
}

// ---------------------------------------------------------------------------
// The client
// ---------------------------------------------------------------------------

#[test]
fn names_are_relative_to_the_pool() {
    assert_eq!(zfs_name("tank", "data"), "tank/data");
    assert_eq!(zfs_name("tank", "tank"), "tank");
    assert_eq!(zfs_name("tank", "tank/data"), "tank/data");
    assert_eq!(zfs_name("tank", "tankard"), "tank/tankard");
    assert_eq!(zfs_name("tank", &zfs_name("tank", "data")), "tank/data");
}

#[test]
fn datasets_are_created_and_destroyed() {
    assert_eq!(
        shown(&create_dataset("data", &config())),
        vec!["run zfs create -p tank/data"]
    );
    assert_eq!(
        shown(&create_volume("v", "1G", &config())),
        vec!["run zfs create -p -V 1G tank/v"]
    );
    assert_eq!(
        shown(&destroy_dataset("tank/v", &config())),
        vec!["run zfs destroy -f tank/v"]
    );
}

#[test]
fn resources_are_found_by_name() {
    assert_eq!(lifecycle_kind("web", &some_files()).unwrap(), Kind::Jail);
    assert_eq!(lifecycle_kind("box", &some_files()).unwrap(), Kind::Vm);
    assert_eq!(
        message(lifecycle_kind("none", &some_files())),
        "no VM or jail exists with this name: none"
    );
    let both = Snapshot::new()
        .with("/var/priosun/jail/x", true)
        .with("/var/priosun/vm/x", true);
    assert_eq!(lifecycle_kind("x", &both).unwrap(), Kind::Vm);
    assert_eq!(
        shown(&set_enabled("x", true, &config(), &both).unwrap()),
        vec!["run zfs set priosun:enabled=true tank/var/priosun/jail/x"]
    );
    assert_eq!(
        shown(&set_enabled("box", false, &config(), &some_files()).unwrap()),
        vec!["run zfs set priosun:enabled=false tank/var/priosun/vm/box"]
    );
    assert_eq!(
        message(set_enabled("none", true, &config(), &some_files())),
        "no VM or jail exists with this name: none"
    );
}

#[test]
fn invocations_become_arguments() {
    let manifest = || {
        ManifestFile::Loaded(Manifest {
            name: "web".to_string(),
            container: "jail".to_string(),
            develop: false,
            provisioners: vec!["ansible".to_string()],
        })
    };
    let directory = Ok("/srv".to_string());
    let args = |invocation| invocation_args(invocation, manifest(), &directory).unwrap().join(" ");
    assert_eq!(
        args(Invocation::Up),
        "up --container jail --develop false --service-dir /srv --provisioner ansible web"
    );
    assert_eq!(
        args(Invocation::Down),
        "down --container jail --develop false --service-dir /srv web"
    );
    assert_eq!(
        args(Invocation::Provision),
        "provision --service-dir /srv --container jail --name web --provisioner ansible"
    );
    assert_eq!(args(Invocation::Attach), "attach web");
    assert_eq!(args(Invocation::Destroy), "destroy jail web");
    assert_eq!(args(Invocation::Other(words("list jails"))), "list jails");
}

#[test]
fn list_of_everything_is_expanded() {
    let sendings = expand(words("list all"));
    let headings: Vec<String> = sendings.iter().map(|one| one.heading.clone().unwrap()).collect();
    assert_eq!(
        headings,
        vec!["=== datasets ===", "=== volumes ===", "=== jails ===", "=== vms ==="]
    );
    assert_eq!(sendings[2].args, vec!["list", "jails"]);
    let sendings = expand(words("list jails"));
    assert_eq!(sendings.len(), 1);
    assert!(sendings[0].heading.is_none());
    assert_eq!(sendings[0].args, vec!["list", "jails"]);
}

#[test]
fn responses_are_shown() {
    let shown = print_response(&success(3, b"out", b"err")).unwrap();
    assert_eq!((shown.stdout.as_str(), shown.stderr.as_str(), shown.status), ("out", "err", 3));
    let shown = print_response(&error("broken")).unwrap();
    assert_eq!((shown.stdout.as_str(), shown.stderr.as_str(), shown.status), ("", "broken\n", 1));
    assert_eq!(
        message(print_response(&serial_console_event())),
        "daemon response is missing response data"
    );
    let shown = print_response(&vms_success(daemon::vm_rows(&vec![("box".to_string(), true)])));
    let shown = shown.unwrap();
    assert_eq!(shown.status, 0);
    assert_eq!(
        shown.stdout,
        "+------+---------+\n| name | status  |\n+------+---------+\n| box  | running |\n+------+---------+\n"
    );
}

#[test]
fn tables_are_drawn() {
    let rows = daemon::zfs_rows(true, b"tank\n", b"").unwrap();
    let tree = datasets_success(rows);
    assert_eq!(
        nvtree_to_table(nested(&tree, "response")).unwrap(),
        "+------+\n| name |\n+------+\n| tank |\n+------+\n"
    );
    let rows = daemon::zfs_rows(true, b"tank/v\n", b"").unwrap();
    let tree = volumes_success(rows);
    assert_eq!(
        response_table(nested(&tree, "response")).unwrap(),
        vec![vec!["name".to_string()], vec!["tank/v".to_string()]]
    );
    let tree = jails_success(daemon::jail_rows(&vec![jail_info()]));
    assert_eq!(
        response_table(nested(&tree, "response")).unwrap(),
        vec![words("name hostname ips status"), words("web web.host 192.0.2.2 running")]
    );
    let tree = success(0, b"", b"");
    assert_eq!(
        message(nvtree_to_table(nested(&tree, "response"))),
        "response contains no tabular resource"
    );
}

#[test]
fn empty_table_has_its_heading() {
    let tree = vms_success(Vec::new());
    assert_eq!(
        nvtree_to_table(nested(&tree, "response")).unwrap(),
        "+------+--------+\n| name | status |\n+------+--------+\n"
    );
}

#[test]
fn resource_rows_tell_kind_and_status() {
    let rows = zfs_rows("datasets", "tank\n\n tank/var \n");
    assert_eq!(rows.len(), 2);
    assert_eq!(
        (rows[1].kind.as_str(), rows[1].name.as_str(), rows[1].status.as_str()),
        ("datasets", "tank/var", "")
    );
    let rows = jail_rows(&vec![jail_info()]);
    assert_eq!(
        (rows[0].kind.as_str(), rows[0].status.as_str()),
        ("jail", "web.host 192.0.2.2 (running)")
    );
    let rows = vm_rows(&vec![("box".to_string(), false)]);
    assert_eq!((rows[0].kind.as_str(), rows[0].status.as_str()), ("vm", "stopped"));
    assert_eq!(resource_rows(&rows), vec![words("kind name status"), words("vm box stopped")]);
    assert_eq!(
        print_table(&rows),
        "+------+------+---------+\n| kind | name | status  |\n+------+------+---------+\n| vm   | box  | stopped |\n+------+------+---------+\n"
    );
}

fn inside(name: &str, tree: Nvtree) -> Nvtpair {
    Nvtpair { flags: 0, name: name.to_string(), value: Nvtvalue::Nested(Box::new(tree)) }
}

#[test]
fn status_is_taken_as_a_number() {
    let mut response = nvtree_create(0);
    nvtree_add(&mut response, nvtree_bool("status", true));
    let mut envelope = nvtree_create(0);
    nvtree_add(&mut envelope, inside("response", response));
    assert_eq!(print_response(&envelope).unwrap().status, 0);
    let mut response = nvtree_create(0);
    nvtree_add(&mut response, nvtree_number("status", 4294967295));
    let mut envelope = nvtree_create(0);
    nvtree_add(&mut envelope, inside("response", response));
    assert_eq!(print_response(&envelope).unwrap().status, -1);
}
