//! Text, plans, properties, dependencies, order, and launches.

use priosun::config::Config;
use priosun::dependency::{
    dependency_list, enabled, graph, remove_references, resources, validate, validate_all,
    validate_graph, Entry, Graph, ResourceKind, Stored,
};
use priosun::error::{caused, Error};
use priosun::launch::{locate, Answer, Ask, Launch};
use priosun::metadata::{dataset_exists, get, get_bool, get_command, get_required};
use priosun::plan::{command, Action, Actions, Next, Plan, Recovery, Runner};
use priosun::snapshot::Snapshot;
use priosun::sort::{in_order, sort_by_name};
use priosun::text::{
    append, bool_text, characters, contains, contains_char, contains_line, copies, decimal,
    drop_white, first_word, hex, join, join_path, lines, lowercase, only_digits, parse_bool,
    parse_list, parse_number, parse_signed, replace, same, signed, slice_text, split, split_once,
    starts_with, trim, NumberError,
};

fn strings(list: &[&str]) -> Vec<String> {
    list.iter().map(|item| item.to_string()).collect()
}

fn message<T>(result: Result<T, Error>) -> String {
    match result {
        Ok(_) => panic!("there is no error"),
        Err(error) => error.message,
    }
}

fn broken() -> Error {
    Error::new("broken".to_string())
}

// ---------------------------------------------------------------------------
// Text
// ---------------------------------------------------------------------------

#[test]
fn texts_are_taken_apart() {
    assert_eq!(split("a,,b", ','), vec!["a", "", "b"]);
    assert_eq!(split("", ','), vec![""]);
    assert_eq!(split_once("a=b=c", '=').unwrap(), ("a".to_string(), "b=c".to_string()));
    assert!(split_once("abc", '=').is_none());
    assert_eq!(parse_list(",a,,b,"), vec!["a", "b"]);
    assert_eq!(lines("a\r\nb\n\nc"), vec!["a", "b", "", "c"]);
    assert_eq!(lines("a\n"), vec!["a"]);
    assert_eq!(lines(""), Vec::<String>::new());
    assert_eq!(first_word("  zroot\t10G"), "zroot");
    assert_eq!(first_word(" \t"), "");
    assert_eq!(trim(" \t\u{a0}x y\n"), "x y");
    assert_eq!(drop_white(" a b\nc "), "abc");
    assert_eq!(characters("a\u{e9}"), vec!['a', '\u{e9}']);
    assert_eq!(slice_text(&vec!['a', 'b', 'c'], 1, 3), "bc");
}

#[test]
fn texts_are_searched() {
    assert!(same("abc", "abc") && !same("abc", "abd") && !same("abc", "ab"));
    assert!(contains_char("a/b", '/') && !contains_char("ab", '/'));
    assert!(contains("Address already in use", "already") && !contains("abc", "ac"));
    assert!(contains("abc", ""));
    assert!(contains_line("a\nb\n", "b") && !contains_line("ab", "b"));
    assert!(starts_with("epair0a", "epair") && !starts_with("ep", "epair"));
    assert_eq!(replace("a__X__b__X__", "__X__", "y"), "ayby");
    assert_eq!(replace("aaa", "aa", "b"), "ba");
}

#[test]
fn texts_are_put_together() {
    assert_eq!(join(&strings(&["a", "b", "c"]), ", "), "a, b, c");
    assert_eq!(join(&Vec::new(), ","), "");
    assert_eq!(lowercase("AbC\u{c9}"), "abc\u{c9}");
    assert_eq!(append(vec![1, 2], &[3]), vec![1, 2, 3]);
    assert_eq!(copies(&strings(&["a", "b"])), vec!["a", "b"]);
    assert_eq!(caused("what".to_string(), "why").message, "what: why");
}

#[test]
fn paths_are_joined() {
    assert_eq!(join_path("/var", "lib"), "/var/lib");
    assert_eq!(join_path("/var/", "lib"), "/var/lib");
    assert_eq!(join_path("/var", "/etc"), "/etc");
    assert_eq!(join_path("", "lib"), "lib");
    assert_eq!(join_path("/var", ""), "/var/");
}

#[test]
fn list_reads_back() {
    let list = strings(&["web", "db"]);
    assert_eq!(parse_list(&join(&list, ",")), list);
    assert_eq!(parse_list(&join(&Vec::new(), ",")), Vec::<String>::new());
}

#[test]
fn numbers_read_back() {
    for number in [0, 7, 10, 65535, u64::MAX] {
        assert_eq!(parse_number(&decimal(number), u64::MAX), Ok(number));
    }
    assert_eq!(decimal(u64::MAX), "18446744073709551615");
    assert_eq!(signed(-2147483648), "-2147483648");
    assert_eq!(signed(42), "42");
    for flag in [true, false] {
        assert_eq!(parse_bool(&bool_text(flag)), Some(flag));
    }
}

#[test]
fn numbers_are_read_as_rust_does() {
    assert_eq!(parse_number("+7", 255), Ok(7));
    assert_eq!(parse_number("007", 255), Ok(7));
    assert_eq!(parse_number("256", 255), Err(NumberError::TooLarge));
    assert_eq!(parse_number("", 255), Err(NumberError::Empty));
    assert_eq!(parse_number("+", 255), Err(NumberError::InvalidDigit));
    assert_eq!(parse_number("-1", 255), Err(NumberError::InvalidDigit));
    assert_eq!(parse_number("999x", 255), "999x".parse::<u8>().map(u64::from).map_err(|error| {
        match error.kind() {
            std::num::IntErrorKind::PosOverflow => NumberError::TooLarge,
            _ => NumberError::InvalidDigit,
        }
    }));
    assert_eq!(NumberError::Empty.message(), "cannot parse integer from empty string");
    assert_eq!(NumberError::InvalidDigit.message(), "invalid digit found in string");
    assert_eq!(NumberError::TooLarge.message(), "number too large to fit in target type");
    assert_eq!(parse_signed("-2147483648"), Some(-2147483648));
    assert_eq!(parse_signed("2147483648"), None);
    assert_eq!(parse_signed("-"), None);
    assert!(only_digits("14.2", true) && !only_digits("14.2", false));
    assert_eq!(hex(0xab, 4), "00ab");
    assert_eq!(hex(0x0f, 2), "0f");
}

// ---------------------------------------------------------------------------
// Plans
// ---------------------------------------------------------------------------

fn note(text: &str) -> Action {
    Action::Message(text.to_string())
}

/// What a plan does where the messages that are named fail.
fn carried_out(plan: Plan, failing: &[&str]) -> (Vec<String>, Option<String>) {
    let mut done = Vec::new();
    let mut runner = Runner::new(plan);
    loop {
        let outcome = match runner.next() {
            Next::Finished => return (done, None),
            Next::Failed(error) => return (done, Some(error.message.clone())),
            Next::Perform(Action::Message(text)) => {
                done.push(text.clone());
                if failing.contains(&text.as_str()) {
                    Err(broken())
                } else {
                    Ok(())
                }
            }
            Next::Perform(Action::Fail(reason)) => Err(Error::new(reason.clone())),
            Next::Perform(_) => panic!("the action is unknown"),
        };
        runner = runner.report(outcome);
    }
}

fn plan() -> Plan {
    let recovery = Recovery::new()
        .also(note("undo one"))
        .group(Actions::new(note("undo two")).and(note("undo three")))
        .also(note("undo four"));
    Plan::new()
        .must(note("first"))
        .may(note("second"))
        .must_for_or(note("third"), "the third".to_string(), recovery)
        .must_for(note("fourth"), "the fourth".to_string())
}

#[test]
fn steps_run_in_order() {
    let (done, error) = carried_out(plan(), &[]);
    assert_eq!(done, vec!["first", "second", "third", "fourth"]);
    assert!(error.is_none());
}

#[test]
fn failure_ends_the_plan() {
    let (done, error) = carried_out(plan(), &["first"]);
    assert_eq!(done, vec!["first"]);
    assert_eq!(error.unwrap(), "broken");
    let (done, error) = carried_out(plan(), &["fourth"]);
    assert_eq!(done.len(), 4);
    assert_eq!(error.unwrap(), "the fourth: broken");
}

#[test]
fn optional_failure_is_passed_over() {
    let (done, error) = carried_out(plan(), &["second"]);
    assert_eq!(done.len(), 4);
    assert!(error.is_none());
}

#[test]
fn failure_is_recovered_from() {
    let (done, error) = carried_out(plan(), &["third"]);
    assert_eq!(&done[3..], &["undo one", "undo two", "undo three", "undo four"]);
    assert_eq!(error.unwrap(), "the third: broken");
}

#[test]
fn recovery_passes_over_its_own_failures() {
    let (done, error) = carried_out(plan(), &["third", "undo one", "undo two"]);
    assert_eq!(&done[3..], &["undo one", "undo two", "undo four"]);
    assert_eq!(error.unwrap(), "the third: broken");
}

#[test]
fn plans_follow_each_other() {
    let plan = Plan::new()
        .tell("a".to_string())
        .then_all(Plan::new().tell("b".to_string()).fail("no more".to_string()));
    let (done, error) = carried_out(plan, &[]);
    assert_eq!(done, vec!["a", "b"]);
    assert_eq!(error.unwrap(), "no more");
    let (done, error) = carried_out(Plan::new(), &[]);
    assert!(done.is_empty() && error.is_none());
}

#[test]
fn commands_are_built() {
    let line = command("zfs").arg("list").args(&strings(&["-H", "x"]));
    let copy = line.copy();
    assert_eq!((copy.program.as_str(), copy.args.join(" ")), ("zfs", "list -H x".to_string()));
    assert_eq!(line.args, copy.args);
}

#[test]
fn snapshots_tell_what_is_there() {
    let files = Snapshot::new().with("/a", true).with("/b", false);
    assert!(files.present("/a") && files.present("/b") && !files.present("/c"));
    assert!(files.is_dir("/a") && !files.is_dir("/b") && !files.is_dir("/c"));
}

// ---------------------------------------------------------------------------
// Properties
// ---------------------------------------------------------------------------

#[test]
fn properties_are_recorded_and_read() {
    let line = priosun::metadata::set("tank/x", "enabled", "true");
    assert_eq!(line.program, "zfs");
    assert_eq!(line.args, vec!["set", "priosun:enabled=true", "tank/x"]);
    assert_eq!(
        get_command("tank/x", "enabled").args,
        vec!["get", "-H", "-o", "value", "priosun:enabled", "tank/x"]
    );
    assert_eq!(dataset_exists("tank/x").args, vec!["list", "-H", "-o", "name", "tank/x"]);
    assert_eq!(get(true, " web,db\n").unwrap(), "web,db");
    assert!(get(true, "-\n").is_none());
    assert!(get(true, "\n").is_none());
    assert!(get(false, "web").is_none());
}

#[test]
fn recorded_values_read_back() {
    assert_eq!(get(true, &format!("{}\n", "4G")).unwrap(), "4G");
    for flag in [true, false] {
        let value = get(true, &bool_text(flag));
        assert_eq!(get_bool("tpm", &value, !flag).unwrap(), flag);
    }
}

#[test]
fn missing_properties_are_told() {
    assert_eq!(get_required("tank/x", "os", Some("debian".to_string())).unwrap(), "debian");
    assert_eq!(
        message(get_required("tank/x", "os", None)),
        "missing ZFS property priosun:os on tank/x"
    );
    assert!(get_bool("tpm", &None, true).unwrap());
    assert_eq!(
        message(get_bool("tpm", &Some("on".to_string()), true)),
        "invalid boolean ZFS property priosun:tpm=on: provided string was not `true` or `false`"
    );
}

// ---------------------------------------------------------------------------
// Dependencies
// ---------------------------------------------------------------------------

fn entry(kind: ResourceKind, name: &str, directory: bool, base: bool) -> Entry {
    Entry { kind, name: name.to_string(), directory, base }
}

fn stored(name: &str, value: Option<&str>) -> Stored {
    Stored {
        kind: ResourceKind::Jail,
        name: name.to_string(),
        dataset: format!("tank/{name}"),
        value: value.map(str::to_string),
    }
}

#[test]
fn resources_are_directories_that_are_no_base() {
    let mut config = Config::default();
    config.zfs_pool = "tank".to_string();
    let entries = vec![
        entry(ResourceKind::Jail, "web", true, false),
        entry(ResourceKind::Jail, "file", false, false),
        entry(ResourceKind::Jail, "common", true, true),
        entry(ResourceKind::Vm, "box", true, true),
    ];
    assert_eq!(
        resources(&config, &entries),
        vec![
            (ResourceKind::Jail, "web".to_string(), "tank/var/priosun/jail/web".to_string()),
            (ResourceKind::Vm, "box".to_string(), "tank/var/priosun/vm/box".to_string()),
        ]
    );
}

#[test]
fn dependencies_must_exist() {
    assert_eq!(dependency_list(&Some(",db,,web".to_string())), vec!["db", "web"]);
    assert_eq!(dependency_list(&None), Vec::<String>::new());
    let known = vec![stored("web", Some("db")), stored("db", None)];
    assert!(validate_all(&known).is_ok());
    assert!(validate("db", &strings(&[]), &known).is_ok());
    assert!(validate_graph(&graph(&known)).is_ok());
    assert_eq!(
        message(validate_all(&vec![stored("web", Some("db"))])),
        "dependency does not exist: db"
    );
}

#[test]
fn dependencies_have_no_cycles() {
    let known = vec![stored("a", Some("b")), stored("b", Some("c")), stored("c", None)];
    assert!(message(validate("c", &strings(&["a"]), &known))
        .starts_with("cyclic resource dependency involving "));
    assert!(validate("c", &strings(&[]), &known).is_ok());
    let diamond = Graph::new()
        .insert("a", strings(&["b", "c"]))
        .insert("b", strings(&["d"]))
        .insert("c", strings(&["d"]))
        .insert("d", strings(&[]));
    assert!(validate_graph(&diamond).is_ok());
    let replaced = diamond.insert("d", strings(&["a"]));
    assert!(message(validate_graph(&replaced)).starts_with("cyclic resource dependency"));
}

#[test]
fn long_chains_are_no_cycles() {
    let mut chain = Graph::new().insert("n0", Vec::new());
    for index in 1..400 {
        chain = chain.insert(&format!("n{index}"), vec![format!("n{}", index - 1)]);
    }
    assert!(validate_graph(&chain).is_ok());
}

#[test]
fn removal_keeps_the_other_dependencies() {
    let known = vec![
        stored("a", Some("x,b,x,c")),
        stored("b", Some("c")),
        stored("d", Some("x")),
    ];
    let lines: Vec<String> = remove_references("x", &known)
        .steps
        .iter()
        .map(|step| match &step.action {
            Action::Run(command) => command.args.join(" "),
            _ => panic!("the action is unknown"),
        })
        .collect();
    assert_eq!(
        lines,
        vec!["set priosun:dependencies=b,c tank/a", "set priosun:dependencies= tank/d"]
    );
}

#[test]
fn resources_are_enabled_by_default() {
    let known = vec![stored("a", None), stored("b", Some("false")), stored("c", Some("true"))];
    let names: Vec<String> = enabled(&known).unwrap().into_iter().map(|pair| pair.1).collect();
    assert_eq!(names, vec!["a", "c"]);
    assert_eq!(
        message(enabled(&vec![stored("a", Some("1"))])),
        "invalid boolean ZFS property priosun:enabled=1: provided string was not `true` or `false`"
    );
}

// ---------------------------------------------------------------------------
// Order
// ---------------------------------------------------------------------------

#[test]
fn names_are_ordered_as_rust_does() {
    let names = ["", "A", "B", "a", "aa", "ab", "\u{e9}", "\u{ffff}", "\u{10000}"];
    for left in names {
        for right in names {
            assert_eq!(in_order(left, right), left <= right);
        }
    }
}

#[test]
fn order_tells_names_apart() {
    assert!(in_order("a", "b") && !in_order("b", "a"));
    assert!(in_order("a", "a"));
    let pairs = vec![("b".to_string(), true), ("a".to_string(), false), ("b".to_string(), false)];
    let sorted = sort_by_name(pairs);
    assert_eq!(sorted[0].0, "a");
    assert_eq!((sorted[1].0.as_str(), sorted[2].0.as_str()), ("b", "b"));
}

// ---------------------------------------------------------------------------
// Launches
// ---------------------------------------------------------------------------

/// Carries out a launch: jails and virtual machines with what they depend on.
fn launched(
    name: &str,
    kind: ResourceKind,
    known: &[(&str, ResourceKind, &[&str])],
    running: &[&str],
) -> (Vec<String>, Result<(), Error>) {
    let mut up: Vec<String> = strings(running);
    let mut started = Vec::new();
    let mut launch = Launch::new(kind, name, false);
    loop {
        let answer = match launch.ask() {
            Ask::Running { name, .. } => Answer::Flag(up.contains(&name)),
            Ask::Dependencies { name, .. } => {
                match known.iter().find(|resource| resource.0 == name) {
                    Some(resource) => Answer::Names(strings(resource.2)),
                    None => Answer::Failed(broken()),
                }
            }
            Ask::Locate { name } => Answer::Place(
                known
                    .iter()
                    .find(|resource| resource.0 == name)
                    .map(|resource| resource.1),
            ),
            Ask::Start { name, .. } => {
                if name == "bad" {
                    Answer::Failed(broken())
                } else {
                    up.push(name.clone());
                    started.push(name);
                    Answer::Done
                }
            }
            Ask::Finished => return (started, Ok(())),
            Ask::Failed(error) => return (started, Err(error)),
        };
        launch = launch.answer(answer);
    }
}

const JAIL: ResourceKind = ResourceKind::Jail;
const VM: ResourceKind = ResourceKind::Vm;

#[test]
fn dependencies_are_started_first() {
    let known: [(&str, ResourceKind, &[&str]); 4] = [
        ("web", JAIL, &["db", "box"]),
        ("db", JAIL, &["box"]),
        ("box", VM, &[]),
        ("other", JAIL, &[]),
    ];
    let (started, result) = launched("web", JAIL, &known, &[]);
    assert_eq!(started, vec!["box", "db", "web"]);
    assert!(result.is_ok());
}

#[test]
fn running_resources_are_left_alone() {
    let known: [(&str, ResourceKind, &[&str]); 2] = [("web", JAIL, &["db"]), ("db", JAIL, &[])];
    let (started, result) = launched("web", JAIL, &known, &["db"]);
    assert_eq!(started, vec!["web"]);
    assert!(result.is_ok());
    let (started, result) = launched("web", JAIL, &known, &["web"]);
    assert!(started.is_empty() && result.is_ok());
}

#[test]
fn launched_cycles_are_rejected() {
    let known: [(&str, ResourceKind, &[&str]); 2] = [("a", JAIL, &["b"]), ("b", VM, &["a"])];
    let (started, result) = launched("a", JAIL, &known, &[]);
    assert!(started.is_empty());
    assert_eq!(message(result), "cyclic resource dependency involving a");
}

#[test]
fn launch_errors_are_told_apart() {
    let known: [(&str, ResourceKind, &[&str]); 3] =
        [("a", JAIL, &["none"]), ("b", JAIL, &["bad"]), ("bad", JAIL, &[])];
    assert_eq!(
        message(launched("a", JAIL, &known, &[]).1),
        "dependency does not exist: none"
    );
    assert_eq!(message(launched("b", JAIL, &known, &[]).1), "broken");
    assert_eq!(message(launched("unknown", VM, &known, &[]).1), "broken");
}

#[test]
fn jail_goes_before_a_vm_of_its_name() {
    let files = Snapshot::new()
        .with("/var/priosun/jail/web", true)
        .with("/var/priosun/vm/web", true)
        .with("/var/priosun/jail/db", false)
        .with("/var/priosun/vm/db", true)
        .with("/var/priosun/vm/..", true);
    assert_eq!(locate("web", &files), Some(ResourceKind::Jail));
    assert_eq!(locate("db", &files), Some(ResourceKind::Vm));
    assert_eq!(locate("..", &files), None);
    assert_eq!(locate("mail", &files), None);
}
