//! The request protocol.

use nvtree::{
    nvtree_add, nvtree_bool, nvtree_create, nvtree_find, nvtree_number, nvtree_pack, nvtree_size,
    nvtree_string, Nvtpair, Nvtree, Nvtvalue,
};
use priosun::daemon::jail_rows;
use priosun::error::Error;
use priosun::extent::measured;
use priosun::jail::JailInfo;
use priosun::protocol::{
    accept_request, command_event, datasets_success, error, jails_success, message_event,
    print_event, read_message, receive_message, receive_request, request_from_args,
    request_to_args, send_message, serial_console_event, session_input, session_reply, success,
    vms_success, volumes_success, write_message, Client, Output, Reply, Resource, Session,
    SOCKET_PATH,
};
use priosun::request::{
    bool_field, is_supported, number_field, optional_bool, optional_number, optional_string,
    optional_strings, parse_size, parse_trimmed, string_array_field, string_field,
};

fn words(text: &str) -> Vec<String> {
    text.split(' ').map(str::to_string).collect()
}

fn request(text: &str) -> Nvtree {
    request_from_args(&words(text)).unwrap()
}

fn refused(text: &str) -> String {
    request_from_args(&words(text)).unwrap_err().message
}

fn message<T>(result: Result<T, Error>) -> String {
    match result {
        Ok(_) => panic!("there is no error"),
        Err(error) => error.message,
    }
}

fn nested<'a>(tree: &'a Nvtree, name: &str) -> &'a Nvtree {
    match &nvtree_find(tree, name).unwrap().value {
        Nvtvalue::Nested(tree) => tree,
        _ => panic!("the field holds no tree"),
    }
}

fn text(tree: &Nvtree, name: &str) -> Option<String> {
    optional_string(tree, name)
}

#[test]
fn create_dataset_uses_named_field() {
    let request = request_from_args(&[
        "create".to_string(),
        "dataset".to_string(),
        "zroot/data".to_string(),
    ])
    .unwrap();

    assert!(matches!(
        nvtree_find(&request, "command").unwrap().value,
        Nvtvalue::String(ref value) if value == "create"
    ));
    assert!(matches!(
        nvtree_find(&request, "type").unwrap().value,
        Nvtvalue::String(ref value) if value == "dataset"
    ));
    assert!(matches!(
        nvtree_find(&request, "dataset").unwrap().value,
        Nvtvalue::String(ref value) if value == "zroot/data"
    ));
    assert!(nvtree_find(&request, "arguments").is_none());
}

#[test]
fn create_volume_uses_numeric_size() {
    let request = request_from_args(&[
        "create".to_string(),
        "volume".to_string(),
        "zroot/windows".to_string(),
        "--size".to_string(),
        "32G".to_string(),
    ])
    .unwrap();

    assert!(matches!(
        nvtree_find(&request, "volume").unwrap().value,
        Nvtvalue::String(ref value) if value == "zroot/windows"
    ));
    assert!(matches!(
        nvtree_find(&request, "size").unwrap().value,
        Nvtvalue::Number(value) if value == 32_000_000_000
    ));
    assert!(nvtree_find(&request, "arguments").is_none());
}

#[test]
fn frame_begins_with_its_length() {
    assert_eq!(write_message(b"abc").unwrap(), b"\0\0\0\x03abc".to_vec());
    assert_eq!(write_message(b"").unwrap(), vec![0, 0, 0, 0]);
    assert_eq!(read_message([0, 0, 1, 2]).unwrap(), 258);
    assert_eq!(read_message([1, 0, 0, 0]).unwrap(), 16777216);
    assert_eq!(message(read_message([1, 0, 0, 1])), "message is too large");
}

#[test]
fn frame_reads_back() {
    let data = vec![7_u8; 300];
    let frame = write_message(&data).unwrap();
    let length = read_message([frame[0], frame[1], frame[2], frame[3]]).unwrap();
    assert_eq!(length, data.len());
    assert_eq!(&frame[4..], &data[..]);
}

#[test]
fn message_arrives_as_it_was_sent() {
    let sent = request("create vm box --disk 20G --os debian --cpus 2 --cloud-init");
    let frame = send_message(&sent).unwrap();
    let length = read_message([frame[0], frame[1], frame[2], frame[3]]).unwrap();
    assert_eq!(length, frame.len() - 4);
    let received = receive_message(&frame[4..]).unwrap();
    assert_eq!(text(&received, "os").unwrap(), "debian");
    assert_eq!(optional_number(&received, "cpus"), Some(2));
    assert_eq!(optional_bool(&received, "cloud_init"), Some(true));
    assert_eq!(request_to_args(&received).unwrap(), request_to_args(&sent).unwrap());
}

#[test]
fn nested_message_arrives_as_it_was_sent() {
    let mut row = nvtree_create(0);
    nvtree_add(&mut row, nvtree_string("name", "tank/data"));
    let frame = send_message(&datasets_success(vec![row])).unwrap();
    let received = receive_message(&frame[4..]).unwrap();
    match &nvtree_find(nested(&received, "response"), "datasets").unwrap().value {
        Nvtvalue::NestedArray(rows) => {
            assert_eq!(rows.len(), 1);
            assert_eq!(text(&rows[0], "name").unwrap(), "tank/data");
        }
        _ => panic!("the field holds no rows"),
    }
}

#[test]
fn message_that_is_none_is_refused() {
    assert!(message(receive_message(b"")).starts_with("invalid nvtree message: "));
    assert!(message(receive_message(b"garbage")).starts_with("invalid nvtree message: "));
    let mut bytes = nvtree_pack(&request("version"));
    assert!(measured(&bytes));
    let last = bytes.len() - 1;
    bytes.truncate(last);
    assert!(message(receive_message(&bytes)).starts_with("invalid nvtree message: "));
}

#[test]
fn message_with_sizes_beyond_its_end_is_refused() {
    let bytes = nvtree_pack(&request("version"));
    for index in 0..bytes.len() {
        let mut damaged = bytes.clone();
        damaged[index] = 0xff;
        let received = receive_message(&damaged);
        // The size of the tree, and that of its only value.
        if (11..19).contains(&index) || (22..30).contains(&index) {
            assert!(message(received).starts_with("invalid nvtree message: "));
        }
    }
    let mut endless = bytes.clone();
    endless[22..30].copy_from_slice(&[0xff; 8]);
    assert!(!measured(&endless));
    assert_eq!(message(receive_message(&endless)), "invalid nvtree message: Malformed");
}

#[test]
fn message_with_more_items_than_bytes_is_refused() {
    let bytes = nvtree_pack(&request("dependencies jail web db,mail"));
    let name = b"dependencies\0";
    let at = bytes.windows(name.len()).rposition(|part| part == name).unwrap();
    assert_eq!(bytes[at - 19], 10);
    let mut endless = bytes.clone();
    endless[at - 8..at].copy_from_slice(&[0x7f; 8]);
    assert!(measured(&bytes));
    assert!(!measured(&endless));
    assert_eq!(message(receive_message(&endless)), "invalid nvtree message: Malformed");
}

#[test]
fn message_that_is_too_long_is_not_measured() {
    assert!(!measured(&vec![0; 16777217]));
    assert!(measured(&vec![0; 16777216]));
}

#[test]
fn message_nested_too_deep_is_refused() {
    let mut tree = nvtree_create(0);
    for _ in 0..256 {
        let value = Nvtvalue::Nested(Box::new(tree));
        tree = nvtree_create(0);
        nvtree_add(&mut tree, Nvtpair { flags: 0, name: "inner".to_string(), value });
    }
    let frame = send_message(&tree).unwrap();
    assert_eq!(receive_message(&frame[4..]).unwrap(), tree);
    let mut deeper = nvtree_create(0);
    let value = Nvtvalue::Nested(Box::new(tree));
    nvtree_add(&mut deeper, Nvtpair { flags: 0, name: "inner".to_string(), value });
    let frame = send_message(&deeper).unwrap();
    assert_eq!(message(receive_message(&frame[4..])), "invalid nvtree message: Malformed");
}

#[test]
fn fields_with_one_name_replace_each_other() {
    let mut tree = nvtree_create(0);
    assert!(nvtree_add(&mut tree, nvtree_string("name", "old")).is_none());
    let earlier = nvtree_add(&mut tree, nvtree_number("name", 7)).unwrap();
    assert_eq!(earlier, nvtree_string("name", "old"));
    assert_eq!(optional_number(&tree, "name"), Some(7));
    assert!(optional_string(&tree, "name").is_none());
}

#[test]
fn request_is_received_where_it_is_supported() {
    let bytes = nvtree_pack(&request("list jails"));
    assert_eq!(text(&receive_request(&bytes).unwrap(), "resource").unwrap(), "jails");
    let mut tree = nvtree_create(0);
    assert_eq!(message(accept_request(tree)), "request is missing command");
    tree = nvtree_create(0);
    nvtree_add(&mut tree, nvtree_string("command", "provision"));
    assert_eq!(message(accept_request(tree)), "unsupported command: provision");
    assert!(is_supported("network-init"));
    assert!(!is_supported("reboot"));
}

#[test]
fn fields_are_read_by_their_type() {
    let mut tree = nvtree_create(0);
    nvtree_add(&mut tree, nvtree_string("text", "a"));
    nvtree_add(&mut tree, nvtree_number("number", 7));
    nvtree_add(&mut tree, nvtree_bool("flag", true));
    let list = vec!["x".to_string(), "y".to_string()];
    let value = Nvtvalue::StringArray(list.clone());
    nvtree_add(&mut tree, Nvtpair { flags: 0, name: "list".to_string(), value });
    assert_eq!(string_field(&tree, "text").unwrap(), "a");
    assert_eq!(number_field(&tree, "number").unwrap(), 7);
    assert!(bool_field(&tree, "flag").unwrap());
    assert_eq!(string_array_field(&tree, "list").unwrap(), list);
    assert_eq!(optional_strings(&tree, "list").unwrap(), list);
    assert_eq!(message(string_field(&tree, "flag")), "request is missing string field flag");
    assert_eq!(message(number_field(&tree, "text")), "request is missing numeric field text");
    assert_eq!(message(bool_field(&tree, "none")), "request is missing boolean field none");
    assert_eq!(
        message(string_array_field(&tree, "text")),
        "request is missing string array field text"
    );
    assert!(optional_string(&tree, "number").is_none());
    assert!(optional_bool(&tree, "text").is_none());
}

#[test]
fn field_that_is_added_again_is_replaced() {
    let mut tree = nvtree_create(0);
    nvtree_add(&mut tree, nvtree_string("name", "old"));
    nvtree_add(&mut tree, nvtree_string("name", "new"));
    assert_eq!(text(&tree, "name").unwrap(), "new");
}

#[test]
fn commands_survive_the_trip() {
    for line in [
        "start web",
        "start web --attach",
        "stop web",
        "attach web",
        "enable web",
        "disable web",
        "list jails",
        "version",
        "network-init",
        "destroy jail web",
        "destroy base jail common",
        "create dataset tank/data",
        "create base vm common",
        "create base jail common --set minimal --version 14.2",
        "dependencies jail web db,mail",
    ] {
        assert_eq!(request_to_args(&request(line)).unwrap().join(" "), line);
    }
    assert_eq!(
        request_to_args(&request("create volume tank/v --size 2k")).unwrap().join(" "),
        "create volume tank/v --size 2000"
    );
    assert_eq!(
        request_to_args(&request("up --service-dir /srv web")).unwrap().join(" "),
        "up --container jail --develop false --service-dir /srv web"
    );
    for line in [
        "up --container jail --develop true --service-dir /srv --provisioner ansible --provisioner -x web",
        "down --container jail --develop false --service-dir /srv web",
    ] {
        assert_eq!(request_to_args(&request(line)).unwrap().join(" "), line);
    }
}

#[test]
fn dependencies_are_put_in_order() {
    let args = vec![
        "dependencies".to_string(),
        "vm".to_string(),
        "box".to_string(),
        " db ,, web,".to_string(),
    ];
    let tree = request_from_args(&args).unwrap();
    assert_eq!(string_array_field(&tree, "dependencies").unwrap(), vec!["db", "web"]);
    assert_eq!(parse_trimmed(" db ,, web,"), vec!["db", "web"]);
    assert_eq!(request_to_args(&tree).unwrap()[3], "db,web");
}

#[test]
fn sizes_are_powers_of_a_thousand() {
    assert_eq!(parse_size("7").unwrap(), 7);
    assert_eq!(parse_size("7K").unwrap(), 7000);
    assert_eq!(parse_size("7m").unwrap(), 7_000_000);
    assert_eq!(parse_size("7G").unwrap(), 7_000_000_000);
    assert_eq!(parse_size("7t").unwrap(), 7_000_000_000_000);
    assert_eq!(parse_size("18446744073709551615K").unwrap(), u64::MAX);
    assert_eq!(message(parse_size("")), "cannot parse integer from empty string");
    assert_eq!(message(parse_size("G")), "cannot parse integer from empty string");
    assert_eq!(message(parse_size("7X")), "invalid digit found in string");
    assert_eq!(
        message(parse_size("18446744073709551616")),
        "number too large to fit in target type"
    );
}

#[test]
fn jail_request_carries_its_options() {
    let tree = request("create jail web --set minimal --base common --version 14.2 --ssh-key key --start --attach");
    assert_eq!(text(&tree, "type").unwrap(), "jail");
    assert_eq!(text(&tree, "name").unwrap(), "web");
    assert_eq!(text(&tree, "set").unwrap(), "minimal");
    assert_eq!(text(&tree, "base").unwrap(), "common");
    assert_eq!(text(&tree, "version").unwrap(), "14.2");
    assert_eq!(text(&tree, "ssh_key").unwrap(), "key");
    assert_eq!(optional_bool(&tree, "start"), Some(true));
    assert_eq!(optional_bool(&tree, "attach"), Some(true));
    assert_eq!(refused("create jail web --attach"), "--attach requires --start");
    assert_eq!(refused("create jail web --set"), "missing value for --set");
}

#[test]
fn jail_name_may_stand_behind_options() {
    assert_eq!(text(&request("create jail --start web"), "name").unwrap(), "web");
    assert_eq!(
        text(&request("create base jail --set minimal common"), "name").unwrap(),
        "common"
    );
    assert_eq!(refused("create jail --start"), "missing name");
}

#[test]
fn vm_request_carries_its_options() {
    let tree = request("create vm box --disk 20G --os freebsd --iso boot.iso --vnc-port 5900 --vnc-bind ::1 --vnc-width 800 --vnc-height 600 --tpm --memory 2G");
    assert_eq!(text(&tree, "disk").unwrap(), "20G");
    assert_eq!(text(&tree, "iso").unwrap(), "boot.iso");
    assert_eq!(optional_number(&tree, "vnc_port"), Some(5900));
    assert_eq!(text(&tree, "vnc_bind").unwrap(), "::1");
    assert_eq!(optional_number(&tree, "vnc_width"), Some(800));
    assert_eq!(optional_number(&tree, "vnc_height"), Some(600));
    assert_eq!(optional_bool(&tree, "tpm"), Some(true));
    assert_eq!(optional_bool(&tree, "cloud_init"), Some(false));
    assert_eq!(optional_bool(&tree, "start"), Some(false));
    assert_eq!(text(&tree, "memory").unwrap(), "2G");
    assert_eq!(
        request_to_args(&tree).unwrap().join(" "),
        "create vm box --disk 20G --os freebsd --iso boot.iso --vnc-port 5900 --vnc-bind ::1 --vnc-width 800 --vnc-height 600 --tpm --memory 2G"
    );
}

#[test]
fn create_errors_are_told_apart() {
    assert_eq!(refused("create"), "missing type");
    assert_eq!(refused("create pool tank"), "unsupported create type: pool");
    assert_eq!(refused("create dataset"), "missing dataset");
    assert_eq!(refused("create dataset a b"), "unexpected arguments: [\"b\"]");
    assert_eq!(refused("create volume"), "missing volume");
    assert_eq!(refused("create volume v"), "missing --size");
    assert_eq!(refused("create volume v --size"), "missing value for --size");
    assert_eq!(refused("create volume v --size x"), "invalid digit found in string");
    assert_eq!(refused("create base"), "missing resource");
    assert_eq!(refused("create base vm"), "missing name");
    assert_eq!(refused("create base vm a b c"), "unexpected arguments: [\"b\", \"c\"]");
    assert_eq!(refused("create base pool a"), "unsupported base resource: pool");
    assert_eq!(
        refused("create vm box --cloud-init --iso x"),
        "--cloud-init and --iso are mutually exclusive"
    );
    assert_eq!(refused("create vm"), "missing name");
    assert_eq!(refused("create vm box --os debian"), "missing --disk");
    assert_eq!(refused("create vm box --disk 1G"), "missing --os");
    assert_eq!(
        refused("create vm box --disk 1G --os debian --ssh-key k"),
        "--ssh-key requires --cloud-init"
    );
    assert_eq!(
        refused("create vm box --disk 1G --os debian --attach"),
        "--attach requires --cloud-init"
    );
    assert_eq!(
        refused("create vm box --disk 1G --os debian --cpus two"),
        "invalid --cpus: invalid digit found in string"
    );
}

#[test]
fn other_request_errors_are_told_apart() {
    assert_eq!(message(request_from_args(&[])), "request is missing command");
    assert_eq!(refused("reboot"), "unsupported command: reboot");
    assert_eq!(refused("provision"), "unsupported command: provision");
    assert_eq!(refused("destroy"), "missing type");
    assert_eq!(refused("destroy base"), "missing resource");
    assert_eq!(refused("destroy base jail"), "missing name");
    assert_eq!(refused("destroy jail"), "missing name");
    assert_eq!(refused("start"), "missing name");
    assert_eq!(refused("start a b"), "unexpected arguments: [\"b\"]");
    assert_eq!(refused("dependencies jail web"), "missing dependencies");
    assert_eq!(refused("enable a b"), "unexpected arguments: [\"b\"]");
    assert_eq!(refused("list"), "missing resource");
    assert_eq!(refused("version now"), "version does not accept arguments");
    assert_eq!(refused("network-init now"), "network-init does not accept arguments");
}

#[test]
fn service_request_errors_are_told_apart() {
    assert_eq!(refused("up web"), "up requires --service-dir");
    assert_eq!(refused("down web"), "down requires --service-dir");
    assert_eq!(refused("up --container vm web"), "unsupported container: vm");
    assert_eq!(
        refused("up --develop maybe web"),
        "invalid --develop value: maybe: provided string was not `true` or `false`"
    );
    assert_eq!(refused("up --service-dir /srv"), "up requires a service name");
    assert_eq!(refused("up --service-dir /srv a b"), "unexpected up arguments");
    assert_eq!(refused("up --service-dir /srv --fast a"), "unsupported up option: --fast");
    assert_eq!(refused("up --service-dir"), "missing value for --service-dir");
}

#[test]
fn service_request_carries_its_fields() {
    let tree = request("up --develop true --service-dir /srv --provisioner ansible web");
    assert_eq!(text(&tree, "container").unwrap(), "jail");
    assert_eq!(optional_bool(&tree, "develop"), Some(true));
    assert_eq!(text(&tree, "service_dir").unwrap(), "/srv");
    assert_eq!(text(&tree, "name").unwrap(), "web");
    assert_eq!(optional_strings(&tree, "provisioners").unwrap(), vec!["ansible"]);
}

#[test]
fn args_errors_are_told_apart() {
    let mut tree = nvtree_create(0);
    assert_eq!(message(request_to_args(&tree)), "request is missing string field command");
    nvtree_add(&mut tree, nvtree_string("command", "reboot"));
    assert_eq!(message(request_to_args(&tree)), "unsupported command: reboot");
    nvtree_add(&mut tree, nvtree_string("command", "create"));
    assert_eq!(message(request_to_args(&tree)), "request is missing string field type");
    nvtree_add(&mut tree, nvtree_string("type", "pool"));
    assert_eq!(message(request_to_args(&tree)), "unsupported create type: pool");
    nvtree_add(&mut tree, nvtree_string("type", "volume"));
    nvtree_add(&mut tree, nvtree_string("volume", "v"));
    assert_eq!(message(request_to_args(&tree)), "request is missing numeric field size");
    assert_eq!(
        message(request_to_args(&request("create jail web"))),
        "request is missing boolean field cloud_init"
    );
}

#[test]
fn events_carry_what_was_printed() {
    let tree = command_event("zfs list", Some(b"out"), None);
    let event = nested(&tree, "event");
    assert_eq!(text(event, "command").unwrap(), "zfs list");
    assert_eq!(text(event, "stdout").unwrap(), "out");
    assert!(nvtree_find(event, "stderr").is_none());
    let tree = command_event("", None, Some(b"\xffoops"));
    let event = nested(&tree, "event");
    assert!(nvtree_find(event, "command").is_none());
    assert_eq!(text(event, "stderr").unwrap(), "\u{fffd}oops");
    assert_eq!(text(nested(&message_event("hello"), "event"), "message").unwrap(), "hello");
    let tree = serial_console_event();
    assert_eq!(text(nested(&tree, "event"), "command").unwrap(), "serial console");
    assert_eq!(optional_bool(nested(&tree, "event"), "detach"), Some(true));
}

#[test]
fn responses_are_told_apart() {
    let tree = success(3, b"out", b"err\xff");
    let response = nested(&tree, "response");
    assert_eq!(optional_number(response, "status"), Some(3));
    assert_eq!(text(response, "stdout").unwrap(), "out");
    assert_eq!(text(response, "stderr").unwrap(), "err\u{fffd}");
    assert_eq!(optional_number(nested(&success(-1, b"", b""), "response"), "status"), Some(0));
    let tree = error("broken");
    assert_eq!(text(&tree, "error").unwrap(), "broken");
    assert!(nvtree_find(&tree, "response").is_none());
    for (tree, field) in [
        (jails_success(Vec::new()), "jails"),
        (datasets_success(Vec::new()), "datasets"),
        (volumes_success(Vec::new()), "volumes"),
        (vms_success(Vec::new()), "vms"),
    ] {
        assert!(matches!(
            nvtree_find(nested(&tree, "response"), field).unwrap().value,
            Nvtvalue::NestedArray(ref rows) if rows.is_empty()
        ));
    }
}

#[test]
fn client_asks_for_lists() {
    let client = Client::default();
    assert_eq!(client.socket, SOCKET_PATH);
    assert_eq!(SOCKET_PATH, "/var/run/priosun/socket");
    let client = Client::new("/tmp/socket");
    assert_eq!(client.socket, "/tmp/socket");
    for (resource, name) in [
        (Resource::Dataset, "datasets"),
        (Resource::Volume, "volumes"),
        (Resource::Vm, "vms"),
        (Resource::Jail, "jails"),
        (Resource::All, "all"),
    ] {
        let tree = client.list(resource);
        assert_eq!(text(&tree, "command").unwrap(), "list");
        assert_eq!(text(&tree, "resource").unwrap(), name);
    }
}

#[test]
fn sessions_are_interactive_where_something_is_attached() {
    assert!(Session::open(&request("attach web")).unwrap().interactive);
    assert!(Session::open(&request("start web --attach")).unwrap().interactive);
    assert!(!Session::open(&request("start web")).unwrap().interactive);
    assert!(!Session::open(&request("list jails")).unwrap().interactive);
    assert_eq!(message(Session::open(&nvtree_create(0))), "unsupported command: unknown");
}

#[test]
fn input_is_sent_until_the_client_detaches() {
    let input = session_input(Some(b"ls\n"), true);
    let sent = input.message.unwrap();
    assert_eq!(text(&sent, "event").unwrap(), "stdin");
    assert_eq!(text(&sent, "data").unwrap(), "ls\n");
    assert!(!input.detach && !input.stop);
    let input = session_input(Some(b"ab\x1dcd"), true);
    assert_eq!(text(&input.message.unwrap(), "data").unwrap(), "ab");
    assert!(input.detach && input.stop);
    let input = session_input(Some(b"\x1d"), true);
    assert!(input.message.is_none() && input.detach && input.stop);
    let input = session_input(Some(b"ab\x1d"), false);
    assert_eq!(text(&input.message.unwrap(), "data").unwrap(), "ab\x1d");
    assert!(!input.detach && !input.stop);
    let input = session_input(None, true);
    assert_eq!(text(&input.message.unwrap(), "event").unwrap(), "stdin_eof");
    assert!(!input.detach && input.stop);
}

#[test]
fn events_are_shown_in_order() {
    let mut event = nvtree_create(0);
    nvtree_add(&mut event, nvtree_string("message", "done"));
    nvtree_add(&mut event, nvtree_string("stderr", "err"));
    nvtree_add(&mut event, nvtree_string("stdout", "out"));
    nvtree_add(&mut event, nvtree_string("command", "zfs list"));
    let lines: Vec<String> = print_event(&event)
        .iter()
        .map(|output| match output {
            Output::Line(text) => format!("line {text}"),
            Output::Stdout(text) => format!("stdout {text}"),
            Output::Stderr(text) => format!("stderr {text}"),
        })
        .collect();
    assert_eq!(lines, vec!["line $ zfs list", "stdout out", "stderr err", "line done"]);
}

#[test]
fn session_ends_with_the_response() {
    match session_reply(Ok(success(0, b"", b"")), false) {
        Reply::Finished(response) => assert!(nvtree_find(&response, "response").is_some()),
        _ => panic!("the session goes on"),
    }
    match session_reply(Ok(serial_console_event()), false) {
        Reply::Show { output, allow_detach } => {
            assert_eq!(output.len(), 1);
            assert!(allow_detach);
        }
        _ => panic!("the event is not shown"),
    }
    match session_reply(Ok(message_event("hello")), false) {
        Reply::Show { allow_detach, .. } => assert!(!allow_detach),
        _ => panic!("the event is not shown"),
    }
    let mut odd = nvtree_create(0);
    nvtree_add(&mut odd, nvtree_string("event", "text"));
    match session_reply(Ok(odd), false) {
        Reply::Failed(error) => assert_eq!(error.message, "invalid event from priosund"),
        _ => panic!("the event is taken"),
    }
}

#[test]
fn detached_session_ends_well() {
    let broken = || Err(Error::new("connection reset".to_string()));
    match session_reply(broken(), false) {
        Reply::Failed(error) => assert_eq!(error.message, "connection reset"),
        _ => panic!("the failure is passed over"),
    }
    match session_reply(broken(), true) {
        Reply::Finished(response) => {
            assert_eq!(optional_number(nested(&response, "response"), "status"), Some(0));
        }
        _ => panic!("the session goes on"),
    }
}

#[test]
fn requests_arrive_at_the_daemon() {
    for line in [
        "create dataset data/mydataset",
        "create volume windows --size 32G",
        "create base jail --version 15.1 15.1 --set FreeBSD-set-base-jail",
        "create jail --version 15.1 myjail --base 15.1",
        "create vm windows --disk 32G --os freebsd --iso /var/vm/Windows.iso --cpus 8 --memory 32G --vnc-port 5900 --tpm",
        "create vm debian13 --disk 32G --memory 4G --os debian --version 13 --cloud-init",
        "dependencies jail myjail network,storage-vm",
        "up --service-dir /srv --provisioner ansible web",
        "network-init",
    ] {
        let sent = request(line);
        let frame = send_message(&sent).unwrap();
        let received = receive_request(&frame[4..]).unwrap();
        assert_eq!(received, sent);
    }
}

#[test]
fn answers_and_events_arrive_at_the_client() {
    for tree in [
        success(3, b"out\xff", b"err"),
        error("broken"),
        message_event("hello"),
        command_event("zfs list", Some(b"tank\n"), Some(b"")),
        serial_console_event(),
        vms_success(Vec::new()),
    ] {
        let frame = send_message(&tree).unwrap();
        let received = receive_message(&frame[4..]).unwrap();
        assert_eq!(received, tree);
    }
}

#[test]
fn every_text_and_every_list_arrives() {
    let rows = jail_rows(&vec![JailInfo {
        name: "web".to_string(),
        hostname: "web\0example".to_string(),
        ips: String::new(),
        status: "running".to_string(),
    }]);
    for tree in [
        error("a\0b"),
        success(0, b"\0", b""),
        request("dependencies jail web ,"),
        jails_success(rows),
        volumes_success(vec![nvtree_create(0), nvtree_create(0)]),
    ] {
        let frame = send_message(&tree).unwrap();
        assert_eq!(frame.len(), nvtree_size(&tree) + 4);
        assert_eq!(receive_message(&frame[4..]).unwrap(), tree);
    }
    let cleared = request("dependencies jail web ,");
    assert!(string_array_field(&cleared, "dependencies").unwrap().is_empty());
}

#[test]
fn listed_text_with_a_nul_arrives_otherwise() {
    let sent = request("dependencies jail web a\0b,c");
    assert_eq!(string_array_field(&sent, "dependencies").unwrap(), vec!["a\0b", "c"]);
    let frame = send_message(&sent).unwrap();
    let received = receive_message(&frame[4..]).unwrap();
    assert_eq!(string_array_field(&received, "dependencies").unwrap(), vec!["a", "b"]);
}
