//! Requests: how command line arguments become a request, how a request becomes
//! command line arguments, and how its fields are read.

use nvtree::Nvtree;
use vstd::prelude::*;

use crate::error;
use crate::error::{caused, Error};
use crate::text;
use crate::text::{
    bool_text, decimal, join, owned, parse_bool, parse_number, quoted, same, split, starts_with,
    trim,
};
use crate::wire;
use crate::wire::{find, text_list, Found, Tree, Value};

verus! {

/// The commands that the daemon takes.
pub open spec fn supported_commands() -> Set<Seq<char>> {
    set![
        "create"@, "destroy"@, "start"@, "stop"@, "attach"@, "version"@, "network-init"@, "up"@,
        "down"@, "list"@, "dependencies"@, "enable"@, "disable"@
    ]
}

/// Whether the daemon takes a command.
pub fn is_supported(command: &str) -> (result: bool)
    ensures
        result == supported_commands().contains(command@),
{
    same(command, "create") || same(command, "destroy") || same(command, "start") || same(
        command,
        "stop",
    ) || same(command, "attach") || same(command, "version") || same(command, "network-init")
        || same(command, "up") || same(command, "down") || same(command, "list") || same(
        command,
        "dependencies",
    ) || same(command, "enable") || same(command, "disable")
}

// ---------------------------------------------------------------------------
// Reading fields
// ---------------------------------------------------------------------------

/// The text of a field, if it is a text.
pub open spec fn text_at(tree: Tree, name: Seq<char>) -> Option<Seq<char>> {
    match wire::get(tree, name) {
        Some(Value::Text(text)) => Some(text),
        _ => None,
    }
}

/// The number of a field, if it is a number.
pub open spec fn number_at(tree: Tree, name: Seq<char>) -> Option<u64> {
    match wire::get(tree, name) {
        Some(Value::Number(number)) => Some(number),
        _ => None,
    }
}

/// The truth value of a field, if it is one.
pub open spec fn flag_at(tree: Tree, name: Seq<char>) -> Option<bool> {
    match wire::get(tree, name) {
        Some(Value::Flag(flag)) => Some(flag),
        _ => None,
    }
}

/// The texts of a field, if it is a list of texts.
pub open spec fn texts_at(tree: Tree, name: Seq<char>) -> Option<Seq<Seq<char>>> {
    match wire::get(tree, name) {
        Some(Value::Texts(texts)) => Some(texts),
        _ => None,
    }
}

/// The text of a field, which must be there.
pub open spec fn need_text(tree: Tree, name: Seq<char>) -> Result<Seq<char>, Seq<char>> {
    match text_at(tree, name) {
        Some(text) => Ok(text),
        None => Err("request is missing string field "@ + name),
    }
}

/// The number of a field, which must be there.
pub open spec fn need_number(tree: Tree, name: Seq<char>) -> Result<u64, Seq<char>> {
    match number_at(tree, name) {
        Some(number) => Ok(number),
        None => Err("request is missing numeric field "@ + name),
    }
}

/// The truth value of a field, which must be there.
pub open spec fn need_flag(tree: Tree, name: Seq<char>) -> Result<bool, Seq<char>> {
    match flag_at(tree, name) {
        Some(flag) => Ok(flag),
        None => Err("request is missing boolean field "@ + name),
    }
}

/// The texts of a field, which must be there.
pub open spec fn need_texts(tree: Tree, name: Seq<char>) -> Result<Seq<Seq<char>>, Seq<char>> {
    match texts_at(tree, name) {
        Some(texts) => Ok(texts),
        None => Err("request is missing string array field "@ + name),
    }
}

/// The text of a field, if it is a text.
pub fn optional_string(tree: &Nvtree, name: &str) -> (result: Option<String>)
    ensures
        match result {
            Some(text) => text_at(wire::content(*tree), name@) == Some(text@),
            None => text_at(wire::content(*tree), name@) is None,
        },
{
    match find(tree, name) {
        Some(Found::Text(text)) => Some(text.clone()),
        _ => None,
    }
}

/// The number of a field, if it is a number.
pub fn optional_number(tree: &Nvtree, name: &str) -> (result: Option<u64>)
    ensures
        result == number_at(wire::content(*tree), name@),
{
    match find(tree, name) {
        Some(Found::Number(number)) => Some(number),
        _ => None,
    }
}

/// The truth value of a field, if it is one.
pub fn optional_bool(tree: &Nvtree, name: &str) -> (result: Option<bool>)
    ensures
        result == flag_at(wire::content(*tree), name@),
{
    match find(tree, name) {
        Some(Found::Flag(flag)) => Some(flag),
        _ => None,
    }
}

/// The text of a field, which must be there.
pub fn string_field(tree: &Nvtree, name: &str) -> (result: Result<String, Error>)
    ensures
        match result {
            Ok(text) => need_text(wire::content(*tree), name@) == Ok::<Seq<char>, Seq<char>>(text@),
            Err(error) => need_text(wire::content(*tree), name@) == Err::<Seq<char>, Seq<char>>(
                error@,
            ),
        },
{
    match optional_string(tree, name) {
        Some(text) => Ok(text),
        None => Err(Error::new(owned("request is missing string field ").concat(name))),
    }
}

/// The number of a field, which must be there.
pub fn number_field(tree: &Nvtree, name: &str) -> (result: Result<u64, Error>)
    ensures
        error::outcome(result) == need_number(wire::content(*tree), name@),
{
    match optional_number(tree, name) {
        Some(number) => Ok(number),
        None => Err(Error::new(owned("request is missing numeric field ").concat(name))),
    }
}

/// The truth value of a field, which must be there.
pub fn bool_field(tree: &Nvtree, name: &str) -> (result: Result<bool, Error>)
    ensures
        error::outcome(result) == need_flag(wire::content(*tree), name@),
{
    match optional_bool(tree, name) {
        Some(flag) => Ok(flag),
        None => Err(Error::new(owned("request is missing boolean field ").concat(name))),
    }
}

/// The texts of a field, if it is a list of texts.
pub fn optional_strings(tree: &Nvtree, name: &str) -> (result: Option<Vec<String>>)
    ensures
        match result {
            Some(texts) => texts_at(wire::content(*tree), name@) == Some(text::views(texts@)),
            None => texts_at(wire::content(*tree), name@) is None,
        },
{
    match find(tree, name) {
        Some(Found::Texts(texts)) => Some(text::copies(texts)),
        _ => None,
    }
}

/// The texts of a field, which must be there.
pub fn string_array_field(tree: &Nvtree, name: &str) -> (result: Result<Vec<String>, Error>)
    ensures
        match result {
            Ok(texts) => need_texts(wire::content(*tree), name@) == Ok::<
                Seq<Seq<char>>,
                Seq<char>,
            >(text::views(texts@)),
            Err(error) => need_texts(wire::content(*tree), name@) == Err::<
                Seq<Seq<char>>,
                Seq<char>,
            >(error@),
        },
{
    match optional_strings(tree, name) {
        Some(texts) => Ok(texts),
        None => Err(Error::new(owned("request is missing string array field ").concat(name))),
    }
}

// ---------------------------------------------------------------------------
// From a request to command line arguments
// ---------------------------------------------------------------------------

/// Arguments under construction, or why there are none.
pub open spec fn push_arg(
    args: Result<Seq<Seq<char>>, Seq<char>>,
    arg: Result<Seq<char>, Seq<char>>,
) -> Result<Seq<Seq<char>>, Seq<char>> {
    match (args, arg) {
        (Err(error), _) => Err(error),
        (Ok(_), Err(error)) => Err(error),
        (Ok(list), Ok(item)) => Ok(list.push(item)),
    }
}

/// Arguments with an option and its value behind them, where there is a value.
pub open spec fn push_option(
    args: Result<Seq<Seq<char>>, Seq<char>>,
    option: Seq<char>,
    value: Option<Seq<char>>,
) -> Result<Seq<Seq<char>>, Seq<char>> {
    match (args, value) {
        (Ok(list), Some(item)) => Ok(list.push(option).push(item)),
        _ => args,
    }
}

/// Arguments with a flag behind them, where it is set.
pub open spec fn push_flag(
    args: Result<Seq<Seq<char>>, Seq<char>>,
    option: Seq<char>,
    set: Result<bool, Seq<char>>,
) -> Result<Seq<Seq<char>>, Seq<char>> {
    match (args, set) {
        (Ok(_), Err(error)) => Err(error),
        (Ok(list), Ok(true)) => Ok(list.push(option)),
        _ => args,
    }
}

/// Arguments with each provisioner named.
pub open spec fn with_provisioners(args: Seq<Seq<char>>, provisioners: Seq<Seq<char>>) -> Seq<
    Seq<char>,
>
    decreases provisioners.len(),
{
    if provisioners.len() == 0 {
        args
    } else {
        with_provisioners(args, provisioners.drop_last()).push("--provisioner"@).push(
            provisioners.last(),
        )
    }
}

/// Arguments with provisioners behind them, where there are some.
pub open spec fn push_provisioners(
    args: Result<Seq<Seq<char>>, Seq<char>>,
    provisioners: Option<Seq<Seq<char>>>,
) -> Result<Seq<Seq<char>>, Seq<char>> {
    match (args, provisioners) {
        (Ok(list), Some(provisioners)) => Ok(with_provisioners(list, provisioners)),
        _ => args,
    }
}

/// A number as text, if there is one.
pub open spec fn number_text(number: Option<u64>) -> Option<Seq<char>> {
    match number {
        Some(n) => Some(text::decimal_spec(n as nat)),
        None => None,
    }
}

/// Arguments under construction.
struct Arguments {
    list: Vec<String>,
    failure: Option<Error>,
}

impl View for Arguments {
    type V = Result<Seq<Seq<char>>, Seq<char>>;

    closed spec fn view(&self) -> Result<Seq<Seq<char>>, Seq<char>> {
        match self.failure {
            Some(error) => Err(error@),
            None => Ok(text::views(self.list@)),
        }
    }
}

impl Arguments {
    fn new(first: String) -> (args: Arguments)
        ensures
            args@ == Ok::<Seq<Seq<char>>, Seq<char>>(seq![first@]),
    {
        let mut list: Vec<String> = Vec::new();
        list.push(first);
        proof {
            assert(text::views(list@) =~= seq![first@]);
        }
        Arguments { list, failure: None }
    }

    fn arg(self, arg: Result<String, Error>) -> (args: Arguments)
        ensures
            match arg {
                Ok(item) => args@ == push_arg(self@, Ok(item@)),
                Err(error) => args@ == push_arg(self@, Err(error@)),
            },
    {
        let mut list = self.list;
        let mut failure = self.failure;
        if failure.is_none() {
            match arg {
                Ok(item) => {
                    list.push(item);
                    proof {
                        assert(text::views(list@) =~= text::views(self.list@).push(item@));
                    }
                },
                Err(error) => {
                    failure = Some(error);
                },
            }
        }
        Arguments { list, failure }
    }

    fn literal(self, item: &str) -> (args: Arguments)
        ensures
            args@ == push_arg(self@, Ok(item@)),
    {
        self.arg(Ok(owned(item)))
    }

    fn option(self, option: &str, value: Option<String>) -> (args: Arguments)
        ensures
            match value {
                Some(item) => args@ == push_option(self@, option@, Some(item@)),
                None => args@ == push_option(self@, option@, None),
            },
    {
        match value {
            Some(item) => self.literal(option).arg(Ok(item)),
            None => self,
        }
    }

    fn number(self, option: &str, value: Option<u64>) -> (args: Arguments)
        ensures
            args@ == push_option(self@, option@, number_text(value)),
    {
        match value {
            Some(number) => self.option(option, Some(decimal(number))),
            None => self,
        }
    }

    fn flag(self, option: &str, set: Result<bool, Error>) -> (args: Arguments)
        ensures
            args@ == push_flag(self@, option@, error::outcome(set)),
    {
        match set {
            Ok(true) => self.literal(option),
            Ok(false) => self,
            Err(error) => self.arg(Err(error)),
        }
    }

    fn provisioners(self, provisioners: Option<Vec<String>>) -> (args: Arguments)
        ensures
            match provisioners {
                Some(names) => args@ == push_provisioners(self@, Some(text::views(names@))),
                None => args@ == self@,
            },
    {
        let names = match provisioners {
            Some(names) => names,
            None => {
                return self;
            },
        };
        let ghost model = text::views(names@);
        let ghost start = self@;
        let mut args = self;
        let mut index: usize = 0;
        while index < names.len()
            invariant
                index <= names@.len(),
                model == text::views(names@),
                args@ == push_provisioners(start, Some(model.take(index as int))),
            decreases names@.len() - index,
        {
            proof {
                assert(model.take(index + 1).drop_last() =~= model.take(index as int));
                assert(model.take(index + 1).last() == names@[index as int]@);
            }
            args = args.literal("--provisioner").literal(names[index].as_str());
            index += 1;
        }
        proof {
            assert(model.take(index as int) =~= model);
        }
        args
    }

    fn finish(self) -> (result: Result<Vec<String>, Error>)
        ensures
            match result {
                Ok(list) => self@ == Ok::<Seq<Seq<char>>, Seq<char>>(text::views(list@)),
                Err(error) => self@ == Err::<Seq<Seq<char>>, Seq<char>>(error@),
            },
    {
        match self.failure {
            Some(error) => Err(error),
            None => Ok(self.list),
        }
    }
}

/// What the create command is given as arguments for this request.
pub open spec fn create_args_spec(tree: Tree) -> Result<Seq<Seq<char>>, Seq<char>> {
    match need_text(tree, "type"@) {
        Err(error) => Err(error),
        Ok(resource) => {
            let args: Result<Seq<Seq<char>>, Seq<char>> = push_arg(
                Ok(seq!["create"@]),
                Ok(resource),
            );
            if resource == "dataset"@ {
                push_arg(args, need_text(tree, "dataset"@))
            } else if resource == "volume"@ {
                let args = push_arg(args, need_text(tree, "volume"@));
                let args = push_arg(args, Ok("--size"@));
                push_arg(
                    args,
                    match need_number(tree, "size"@) {
                        Ok(size) => Ok(text::decimal_spec(size as nat)),
                        Err(error) => Err(error),
                    },
                )
            } else if resource == "jail"@ {
                let args = push_arg(args, need_text(tree, "name"@));
                let args = push_option(args, "--set"@, text_at(tree, "set"@));
                let args = push_option(args, "--base"@, text_at(tree, "base"@));
                let args = push_option(args, "--version"@, text_at(tree, "version"@));
                let args = push_option(args, "--ssh-key"@, text_at(tree, "ssh_key"@));
                let args = push_flag(args, "--start"@, need_flag(tree, "cloud_init"@));
                push_flag(args, "--attach"@, Ok(flag_at(tree, "attach"@) == Some(true)))
            } else if resource == "base"@ {
                let args = push_arg(args, need_text(tree, "resource"@));
                let args = push_arg(args, need_text(tree, "name"@));
                let args = push_option(args, "--set"@, text_at(tree, "set"@));
                push_option(args, "--version"@, text_at(tree, "version"@))
            } else if resource == "vm"@ {
                let args = push_arg(args, need_text(tree, "name"@));
                let args = push_arg(args, Ok("--disk"@));
                let args = push_arg(args, need_text(tree, "disk"@));
                let args = push_arg(args, Ok("--os"@));
                let args = push_arg(args, need_text(tree, "os"@));
                let args = push_option(args, "--version"@, text_at(tree, "version"@));
                let args = push_flag(args, "--cloud-init"@, need_flag(tree, "cloud_init"@));
                let args = push_option(args, "--ssh-key"@, text_at(tree, "ssh_key"@));
                let args = push_option(args, "--iso"@, text_at(tree, "iso"@));
                let args = push_option(
                    args,
                    "--vnc-port"@,
                    number_text(number_at(tree, "vnc_port"@)),
                );
                let args = push_option(args, "--vnc-bind"@, text_at(tree, "vnc_bind"@));
                let args = push_option(
                    args,
                    "--vnc-width"@,
                    number_text(number_at(tree, "vnc_width"@)),
                );
                let args = push_option(
                    args,
                    "--vnc-height"@,
                    number_text(number_at(tree, "vnc_height"@)),
                );
                let args = push_flag(args, "--tpm"@, need_flag(tree, "tpm"@));
                let args = push_option(args, "--cpus"@, number_text(number_at(tree, "cpus"@)));
                let args = push_option(args, "--memory"@, text_at(tree, "memory"@));
                let args = push_flag(
                    args,
                    "--start"@,
                    Ok(flag_at(tree, "start"@) == Some(true)),
                );
                push_flag(args, "--attach"@, Ok(flag_at(tree, "attach"@) == Some(true)))
            } else {
                Err("unsupported create type: "@ + resource)
            }
        },
    }
}

fn create_args(request: &Nvtree) -> (result: Result<Vec<String>, Error>)
    ensures
        match result {
            Ok(args) => create_args_spec(wire::content(*request)) == Ok::<
                Seq<Seq<char>>,
                Seq<char>,
            >(text::views(args@)),
            Err(error) => create_args_spec(wire::content(*request)) == Err::<
                Seq<Seq<char>>,
                Seq<char>,
            >(error@),
        },
{
    let resource = match string_field(request, "type") {
        Ok(resource) => resource,
        Err(error) => {
            return Err(error);
        },
    };
    let kind = resource.as_str();
    let args = Arguments::new(owned("create")).literal(kind);
    if same(kind, "dataset") {
        args.arg(string_field(request, "dataset")).finish()
    } else if same(kind, "volume") {
        let size = match number_field(request, "size") {
            Ok(size) => Ok(decimal(size)),
            Err(error) => Err(error),
        };
        args.arg(string_field(request, "volume")).literal("--size").arg(size).finish()
    } else if same(kind, "jail") {
        args.arg(string_field(request, "name")).option(
            "--set",
            optional_string(request, "set"),
        ).option("--base", optional_string(request, "base")).option(
            "--version",
            optional_string(request, "version"),
        ).option("--ssh-key", optional_string(request, "ssh_key")).flag(
            "--start",
            bool_field(request, "cloud_init"),
        ).flag("--attach", Ok(is_set(request, "attach"))).finish()
    } else if same(kind, "base") {
        args.arg(string_field(request, "resource")).arg(string_field(request, "name")).option(
            "--set",
            optional_string(request, "set"),
        ).option("--version", optional_string(request, "version")).finish()
    } else if same(kind, "vm") {
        let args = args.arg(string_field(request, "name")).literal("--disk").arg(
            string_field(request, "disk"),
        ).literal("--os").arg(string_field(request, "os")).option(
            "--version",
            optional_string(request, "version"),
        ).flag("--cloud-init", bool_field(request, "cloud_init")).option(
            "--ssh-key",
            optional_string(request, "ssh_key"),
        ).option("--iso", optional_string(request, "iso"));
        let args = args.number("--vnc-port", optional_number(request, "vnc_port")).option(
            "--vnc-bind",
            optional_string(request, "vnc_bind"),
        ).number("--vnc-width", optional_number(request, "vnc_width")).number(
            "--vnc-height",
            optional_number(request, "vnc_height"),
        ).flag("--tpm", bool_field(request, "tpm")).number(
            "--cpus",
            optional_number(request, "cpus"),
        ).option("--memory", optional_string(request, "memory"));
        args.flag("--start", Ok(is_set(request, "start"))).flag(
            "--attach",
            Ok(is_set(request, "attach")),
        ).finish()
    } else {
        Err(Error::new(owned("unsupported create type: ").concat(kind)))
    }
}

fn is_set(request: &Nvtree, name: &str) -> (result: bool)
    ensures
        result == (flag_at(wire::content(*request), name@) == Some(true)),
{
    match optional_bool(request, name) {
        Some(flag) => flag,
        None => false,
    }
}

/// The command line arguments that mean the same as a request.
pub open spec fn request_to_args_spec(tree: Tree) -> Result<Seq<Seq<char>>, Seq<char>> {
    match need_text(tree, "command"@) {
        Err(error) => Err(error),
        Ok(command) => {
            let args: Result<Seq<Seq<char>>, Seq<char>> = Ok(seq![command]);
            if command == "create"@ {
                create_args_spec(tree)
            } else if command == "destroy"@ {
                let args = push_arg(args, need_text(tree, "type"@));
                let args = if need_text(tree, "type"@) == Ok::<Seq<char>, Seq<char>>("base"@) {
                    push_arg(args, need_text(tree, "resource"@))
                } else {
                    args
                };
                push_arg(args, need_text(tree, "name"@))
            } else if command == "start"@ || command == "stop"@ || command == "attach"@ {
                let args = push_arg(args, need_text(tree, "name"@));
                push_flag(
                    args,
                    "--attach"@,
                    Ok(command == "start"@ && flag_at(tree, "attach"@) == Some(true)),
                )
            } else if command == "dependencies"@ {
                let args = push_arg(args, need_text(tree, "type"@));
                let args = push_arg(args, need_text(tree, "name"@));
                push_arg(
                    args,
                    match need_texts(tree, "dependencies"@) {
                        Ok(list) => Ok(text::join_spec(list, ","@)),
                        Err(error) => Err(error),
                    },
                )
            } else if command == "enable"@ || command == "disable"@ {
                push_arg(args, need_text(tree, "name"@))
            } else if command == "list"@ {
                push_arg(args, need_text(tree, "resource"@))
            } else if command == "version"@ || command == "network-init"@ {
                args
            } else if command == "up"@ || command == "down"@ {
                let args = push_arg(args, Ok("--container"@));
                let args = push_arg(args, need_text(tree, "container"@));
                let args = push_arg(args, Ok("--develop"@));
                let args = push_arg(
                    args,
                    match need_flag(tree, "develop"@) {
                        Ok(develop) => Ok(text::bool_spec(develop)),
                        Err(error) => Err(error),
                    },
                );
                let args = push_arg(args, Ok("--service-dir"@));
                let args = push_arg(args, need_text(tree, "service_dir"@));
                let args = push_provisioners(
                    args,
                    if command == "up"@ {
                        texts_at(tree, "provisioners"@)
                    } else {
                        None
                    },
                );
                push_arg(args, need_text(tree, "name"@))
            } else {
                Err("unsupported command: "@ + command)
            }
        },
    }
}

/// Turns a request into the command line arguments that mean the same.
pub fn request_to_args(request: &Nvtree) -> (result: Result<Vec<String>, Error>)
    ensures
        match result {
            Ok(args) => request_to_args_spec(wire::content(*request)) == Ok::<
                Seq<Seq<char>>,
                Seq<char>,
            >(text::views(args@)),
            Err(error) => request_to_args_spec(wire::content(*request)) == Err::<
                Seq<Seq<char>>,
                Seq<char>,
            >(error@),
        },
{
    let name = match string_field(request, "command") {
        Ok(command) => command,
        Err(error) => {
            return Err(error);
        },
    };
    let command = name.as_str();
    let args = Arguments::new(owned(command));
    if same(command, "create") {
        create_args(request)
    } else if same(command, "destroy") {
        let kind = string_field(request, "type");
        let base = match &kind {
            Ok(kind) => same(kind.as_str(), "base"),
            Err(_) => false,
        };
        let args = args.arg(kind);
        let args = if base {
            args.arg(string_field(request, "resource"))
        } else {
            args
        };
        args.arg(string_field(request, "name")).finish()
    } else if same(command, "start") || same(command, "stop") || same(command, "attach") {
        let attach = same(command, "start") && is_set(request, "attach");
        args.arg(string_field(request, "name")).flag("--attach", Ok(attach)).finish()
    } else if same(command, "dependencies") {
        let list = match string_array_field(request, "dependencies") {
            Ok(list) => Ok(join(&list, ",")),
            Err(error) => Err(error),
        };
        args.arg(string_field(request, "type")).arg(string_field(request, "name")).arg(
            list,
        ).finish()
    } else if same(command, "enable") || same(command, "disable") {
        args.arg(string_field(request, "name")).finish()
    } else if same(command, "list") {
        args.arg(string_field(request, "resource")).finish()
    } else if same(command, "version") || same(command, "network-init") {
        args.finish()
    } else if same(command, "up") || same(command, "down") {
        let develop = match bool_field(request, "develop") {
            Ok(develop) => Ok(bool_text(develop)),
            Err(error) => Err(error),
        };
        let provisioners = if same(command, "up") {
            optional_strings(request, "provisioners")
        } else {
            None
        };
        args.literal("--container").arg(string_field(request, "container")).literal(
            "--develop",
        ).arg(develop).literal("--service-dir").arg(
            string_field(request, "service_dir"),
        ).provisioners(provisioners).arg(string_field(request, "name")).finish()
    } else {
        Err(Error::new(owned("unsupported command: ").concat(command)))
    }
}

// ---------------------------------------------------------------------------
// From command line arguments to a request
// ---------------------------------------------------------------------------

/// The place of the first argument equal to `wanted`, at or behind `from`; the
/// number of arguments if there is none.
pub open spec fn arg_place(args: Seq<Seq<char>>, wanted: Seq<char>, from: int) -> int
    decreases args.len() - from,
{
    if from < 0 || from >= args.len() {
        args.len() as int
    } else if args[from] == wanted {
        from
    } else {
        arg_place(args, wanted, from + 1)
    }
}

/// The argument at a place, which must be there.
pub open spec fn arg_at(args: Seq<Seq<char>>, index: int, what: Seq<char>) -> Result<
    Seq<char>,
    Seq<char>,
> {
    if 0 <= index < args.len() {
        Ok(args[index])
    } else {
        Err("missing "@ + what)
    }
}

/// The value behind an option, if the option is there.
pub open spec fn option_value(args: Seq<Seq<char>>, option: Seq<char>) -> Result<
    Option<Seq<char>>,
    Seq<char>,
> {
    let place = arg_place(args, option, 0);
    if place >= args.len() {
        Ok(None)
    } else if place + 1 < args.len() {
        Ok(Some(args[place + 1]))
    } else {
        Err("missing value for "@ + option)
    }
}

/// The value behind an option, which must be there.
pub open spec fn needed_option(args: Seq<Seq<char>>, option: Seq<char>) -> Result<
    Seq<char>,
    Seq<char>,
> {
    match option_value(args, option) {
        Ok(Some(value)) => Ok(value),
        Ok(None) => Err("missing "@ + option),
        Err(error) => Err(error),
    }
}

/// How many arguments an option of `create jail`, or of `create base jail`, takes
/// up with its value; zero for what is no such option.
pub open spec fn option_width(arg: Seq<char>, base: bool) -> int {
    if arg == "--set"@ || arg == "--version"@ {
        2
    } else if !base && (arg == "--base"@ || arg == "--ssh-key"@) {
        2
    } else if !base && (arg == "--start"@ || arg == "--attach"@) {
        1
    } else {
        0
    }
}

/// The first argument at or behind `from` that is neither an option nor the value
/// of one.
pub open spec fn positional_spec(args: Seq<Seq<char>>, from: int, base: bool) -> Result<
    Seq<char>,
    Seq<char>,
>
    decreases
        (if from < args.len() {
            args.len() - from
        } else {
            0
        }),
{
    if from < 0 || from >= args.len() {
        Err("missing name"@)
    } else if option_width(args[from], base) == 0 {
        Ok(args[from])
    } else {
        positional_spec(args, from + option_width(args[from], base), base)
    }
}

/// How the arguments from `from` on are listed in an error.
pub open spec fn listed_spec(args: Seq<Seq<char>>) -> Seq<char> {
    "["@ + text::join_spec(args.map_values(|arg: Seq<char>| text::quoted_spec(arg)), ", "@) + "]"@
}

/// The error for arguments beyond the first `from`, if there are any.
pub open spec fn extra_error(args: Seq<Seq<char>>, from: int) -> Option<Seq<char>> {
    if args.len() > from {
        Some("unexpected arguments: "@ + listed_spec(args.skip(from)))
    } else {
        None
    }
}

/// The list without the arguments equal to `dropped`.
pub open spec fn without_arg(args: Seq<Seq<char>>, dropped: Seq<char>) -> Seq<Seq<char>>
    decreases args.len(),
{
    if args.len() == 0 {
        seq![]
    } else if args.last() == dropped {
        without_arg(args.drop_last(), dropped)
    } else {
        without_arg(args.drop_last(), dropped).push(args.last())
    }
}

/// The number of bytes that a size means: a number, with a letter for a power of a
/// thousand behind it or not.
pub open spec fn size_spec(s: Seq<char>) -> Result<u64, Seq<char>> {
    let unit: nat = if s.len() == 0 {
        1
    } else if s.last() == 'K' || s.last() == 'k' {
        1_000
    } else if s.last() == 'M' || s.last() == 'm' {
        1_000_000
    } else if s.last() == 'G' || s.last() == 'g' {
        1_000_000_000
    } else if s.last() == 'T' || s.last() == 't' {
        1_000_000_000_000
    } else {
        1
    };
    let digits = if unit == 1 {
        s
    } else {
        s.drop_last()
    };
    match text::number_spec(digits, u64::MAX as nat) {
        Ok(number) => Ok(
            if number * unit > u64::MAX {
                u64::MAX
            } else {
                (number * unit) as u64
            },
        ),
        Err(error) => Err(text::number_error_text(error)),
    }
}

fn arg_position(args: &Vec<String>, wanted: &str) -> (place: usize)
    ensures
        place == arg_place(text::views(args@), wanted@, 0),
        place <= args@.len(),
{
    let mut place: usize = 0;
    while place < args.len() && !same(args[place].as_str(), wanted)
        invariant
            place <= args@.len(),
            arg_place(text::views(args@), wanted@, 0) == arg_place(
                text::views(args@),
                wanted@,
                place as int,
            ),
        decreases args@.len() - place,
    {
        place += 1;
    }
    place
}

proof fn lemma_arg_place(args: Seq<Seq<char>>, wanted: Seq<char>, from: int)
    requires
        0 <= from <= args.len(),
    ensures
        from <= arg_place(args, wanted, from) <= args.len(),
        arg_place(args, wanted, from) < args.len() ==> args[arg_place(args, wanted, from)]
            == wanted,
        forall|i: int| from <= i < arg_place(args, wanted, from) ==> args[i] != wanted,
    decreases args.len() - from,
{
    if from < args.len() && args[from] != wanted {
        lemma_arg_place(args, wanted, from + 1);
    }
}

fn has_flag(args: &Vec<String>, flag: &str) -> (found: bool)
    ensures
        found == text::views(args@).contains(flag@),
{
    proof {
        lemma_arg_place(text::views(args@), flag@, 0);
    }
    arg_position(args, flag) < args.len()
}

fn require_arg(args: &Vec<String>, index: usize, what: &str) -> (result: Result<String, Error>)
    ensures
        error::text_outcome(result) == arg_at(text::views(args@), index as int, what@),
{
    if index < args.len() {
        Ok(args[index].clone())
    } else {
        Err(Error::new(owned("missing ").concat(what)))
    }
}

/// What an optional result holds, as characters.
pub open spec fn option_result(result: Result<Option<String>, Error>) -> Result<
    Option<Seq<char>>,
    Seq<char>,
> {
    match result {
        Ok(Some(value)) => Ok(Some(value@)),
        Ok(None) => Ok(None),
        Err(error) => Err(error@),
    }
}

fn optional_option(args: &Vec<String>, option: &str) -> (result: Result<Option<String>, Error>)
    ensures
        option_result(result) == option_value(text::views(args@), option@),
{
    let place: usize = arg_position(args, option);
    if place >= args.len() {
        Ok(None)
    } else if place + 1 < args.len() {
        Ok(Some(args[place + 1].clone()))
    } else {
        Err(Error::new(owned("missing value for ").concat(option)))
    }
}

fn named_option(args: &Vec<String>, option: &str) -> (result: Result<String, Error>)
    ensures
        error::text_outcome(result) == needed_option(text::views(args@), option@),
{
    match optional_option(args, option) {
        Ok(Some(value)) => Ok(value),
        Ok(None) => Err(Error::new(owned("missing ").concat(option))),
        Err(error) => Err(error),
    }
}

fn positional(args: &Vec<String>, from: usize, base: bool) -> (result: Result<String, Error>)
    ensures
        error::text_outcome(result) == positional_spec(text::views(args@), from as int, base),
{
    let mut index: usize = from;
    while index < args.len()
        invariant
            from <= index,
            positional_spec(text::views(args@), from as int, base) == positional_spec(
                text::views(args@),
                index as int,
                base,
            ),
        decreases args@.len() - index,
    {
        let arg = args[index].as_str();
        if same(arg, "--set") || same(arg, "--version") || (!base && (same(arg, "--base") || same(
            arg,
            "--ssh-key",
        ))) {
            if index + 1 == args.len() {
                proof {
                    reveal_with_fuel(positional_spec, 2);
                }
                return Err(Error::new(owned("missing name")));
            }
            index += 2;
        } else if !base && (same(arg, "--start") || same(arg, "--attach")) {
            index += 1;
        } else {
            return Ok(args[index].clone());
        }
    }
    Err(Error::new(owned("missing name")))
}

fn listed(args: &Vec<String>, from: usize) -> (result: String)
    requires
        from <= args@.len(),
    ensures
        result@ == listed_spec(text::views(args@).skip(from as int)),
{
    let mut items: Vec<String> = Vec::new();
    let mut index: usize = from;
    let ghost rest = text::views(args@).skip(from as int);
    let ghost shown = rest.map_values(|arg: Seq<char>| text::quoted_spec(arg));
    while index < args.len()
        invariant
            from <= index <= args@.len(),
            rest == text::views(args@).skip(from as int),
            shown == rest.map_values(|arg: Seq<char>| text::quoted_spec(arg)),
            text::views(items@) == shown.take(index - from),
        decreases args@.len() - index,
    {
        let ghost before = items@;
        items.push(quoted(args[index].as_str()));
        proof {
            assert(text::views(items@) =~= text::views(before).push(shown[index - from]));
            assert(shown.take(index - from + 1) =~= shown.take(index - from).push(
                shown[index - from],
            ));
        }
        index += 1;
    }
    proof {
        assert(shown.take(index - from) =~= shown);
    }
    owned("[").concat(join(&items, ", ").as_str()).concat("]")
}

fn ensure_no_extra(args: &Vec<String>, from: usize) -> (result: Result<(), Error>)
    ensures
        match result {
            Ok(_) => extra_error(text::views(args@), from as int) is None,
            Err(error) => extra_error(text::views(args@), from as int) == Some(error@),
        },
{
    if args.len() > from {
        Err(Error::new(owned("unexpected arguments: ").concat(listed(args, from).as_str())))
    } else {
        Ok(())
    }
}

fn drop_arg(args: &Vec<String>, dropped: &str) -> (kept: Vec<String>)
    ensures
        text::views(kept@) == without_arg(text::views(args@), dropped@),
{
    let mut kept: Vec<String> = Vec::new();
    let mut index: usize = 0;
    proof {
        assert(text::views(kept@) =~= without_arg(text::views(args@).take(0), dropped@));
    }
    while index < args.len()
        invariant
            index <= args@.len(),
            text::views(kept@) == without_arg(text::views(args@).take(index as int), dropped@),
        decreases args@.len() - index,
    {
        let ghost before = kept@;
        proof {
            let step = text::views(args@).take(index + 1);
            assert(step.drop_last() =~= text::views(args@).take(index as int));
            assert(step.last() == args@[index as int]@);
        }
        if !same(args[index].as_str(), dropped) {
            kept.push(args[index].clone());
            proof {
                assert(text::views(kept@) =~= text::views(before).push(args@[index as int]@));
            }
        }
        index += 1;
    }
    proof {
        assert(text::views(args@).take(index as int) =~= text::views(args@));
    }
    kept
}

/// Reads a size: a number of bytes, or of a power of a thousand of them.
pub fn parse_size(value: &str) -> (result: Result<u64, Error>)
    ensures
        error::outcome(result) == size_spec(value@),
{
    let chars = text::characters(value);
    let unit: u64 = if chars.len() == 0 {
        1
    } else {
        let last = chars[chars.len() - 1];
        if last == 'K' || last == 'k' {
            1_000
        } else if last == 'M' || last == 'm' {
            1_000_000
        } else if last == 'G' || last == 'g' {
            1_000_000_000
        } else if last == 'T' || last == 't' {
            1_000_000_000_000
        } else {
            1
        }
    };
    let digits = if unit == 1 {
        owned(value)
    } else {
        text::slice_text(&chars, 0, chars.len() - 1)
    };
    proof {
        assert(unit != 1 ==> digits@ =~= value@.drop_last());
    }
    match parse_number(digits.as_str(), u64::MAX) {
        Ok(number) => match number.checked_mul(unit) {
            Some(bytes) => Ok(bytes),
            None => Ok(u64::MAX),
        },
        Err(error) => Err(Error::new(error.message())),
    }
}

/// A request under construction with a text added, or why there is none.
pub open spec fn with_text(
    draft: Result<Tree, Seq<char>>,
    name: Seq<char>,
    value: Result<Seq<char>, Seq<char>>,
) -> Result<Tree, Seq<char>> {
    match (draft, value) {
        (Err(error), _) => Err(error),
        (Ok(_), Err(error)) => Err(error),
        (Ok(tree), Ok(item)) => Ok(wire::put(tree, name, Value::Text(item))),
    }
}

/// A request under construction with a text added, where there is one.
pub open spec fn with_optional_text(
    draft: Result<Tree, Seq<char>>,
    name: Seq<char>,
    value: Result<Option<Seq<char>>, Seq<char>>,
) -> Result<Tree, Seq<char>> {
    match value {
        Ok(None) => draft,
        Ok(Some(item)) => with_text(draft, name, Ok(item)),
        Err(error) => with_text(draft, name, Err(error)),
    }
}

/// A request under construction with a number added.
pub open spec fn with_number(
    draft: Result<Tree, Seq<char>>,
    name: Seq<char>,
    value: Result<u64, Seq<char>>,
) -> Result<Tree, Seq<char>> {
    match (draft, value) {
        (Err(error), _) => Err(error),
        (Ok(_), Err(error)) => Err(error),
        (Ok(tree), Ok(item)) => Ok(wire::put(tree, name, Value::Number(item))),
    }
}

/// The number that is the value of an option, if the option is there.
pub open spec fn option_number(args: Seq<Seq<char>>, option: Seq<char>) -> Result<
    Option<u64>,
    Seq<char>,
> {
    match option_value(args, option) {
        Err(error) => Err(error),
        Ok(None) => Ok(None),
        Ok(Some(value)) => match text::number_spec(value, u64::MAX as nat) {
            Ok(number) => Ok(Some(number as u64)),
            Err(error) => Err(
                error::with_cause("invalid "@ + option, text::number_error_text(error)),
            ),
        },
    }
}

/// A request under construction with a number added, where there is one.
pub open spec fn with_optional_number(
    draft: Result<Tree, Seq<char>>,
    name: Seq<char>,
    value: Result<Option<u64>, Seq<char>>,
) -> Result<Tree, Seq<char>> {
    match value {
        Ok(None) => draft,
        Ok(Some(item)) => with_number(draft, name, Ok(item)),
        Err(error) => with_number(draft, name, Err(error)),
    }
}

/// A request under construction with a truth value added.
pub open spec fn with_flag(
    draft: Result<Tree, Seq<char>>,
    name: Seq<char>,
    value: bool,
) -> Result<Tree, Seq<char>> {
    match draft {
        Err(error) => Err(error),
        Ok(tree) => Ok(wire::put(tree, name, Value::Flag(value))),
    }
}

/// A request under construction, given up where there is an error.
pub open spec fn unless(draft: Result<Tree, Seq<char>>, failure: Option<Seq<char>>) -> Result<
    Tree,
    Seq<char>,
> {
    match (draft, failure) {
        (Ok(_), Some(error)) => Err(error),
        _ => draft,
    }
}

/// The error with this message, where it applies.
pub open spec fn error_if(applies: bool, message: Seq<char>) -> Option<Seq<char>> {
    if applies {
        Some(message)
    } else {
        None
    }
}

/// A request under construction.
struct Draft {
    tree: Nvtree,
    failure: Option<Error>,
}

impl View for Draft {
    type V = Result<Tree, Seq<char>>;

    closed spec fn view(&self) -> Result<Tree, Seq<char>> {
        match self.failure {
            Some(error) => Err(error@),
            None => Ok(wire::content(self.tree)),
        }
    }
}

impl Draft {
    fn new(command: &str) -> (draft: Draft)
        ensures
            draft@ == with_text(Ok(wire::empty_tree()), "command"@, Ok(command@)),
    {
        let draft = Draft { tree: nvtree::nvtree_create(0), failure: None };
        draft.text("command", Ok(owned(command)))
    }

    fn fail(self, error: Error) -> (draft: Draft)
        ensures
            draft@ == unless(self@, Some(error@)),
    {
        let failure = match self.failure {
            Some(earlier) => Some(earlier),
            None => Some(error),
        };
        Draft { tree: self.tree, failure }
    }

    fn text(self, name: &str, value: Result<String, Error>) -> (draft: Draft)
        ensures
            draft@ == with_text(self@, name@, error::text_outcome(value)),
    {
        match value {
            Ok(item) => {
                let mut tree = self.tree;
                let _ = nvtree::nvtree_add(&mut tree, nvtree::nvtree_string(name, item.as_str()));
                Draft { tree, failure: self.failure }
            },
            Err(error) => self.fail(error),
        }
    }

    fn optional_text(self, name: &str, value: Result<Option<String>, Error>) -> (draft: Draft)
        ensures
            draft@ == with_optional_text(self@, name@, option_result(value)),
    {
        match value {
            Ok(Some(item)) => self.text(name, Ok(item)),
            Ok(None) => self,
            Err(error) => self.text(name, Err(error)),
        }
    }

    fn number(self, name: &str, value: Result<u64, Error>) -> (draft: Draft)
        ensures
            draft@ == with_number(self@, name@, error::outcome(value)),
    {
        match value {
            Ok(item) => {
                let mut tree = self.tree;
                let _ = nvtree::nvtree_add(&mut tree, nvtree::nvtree_number(name, item));
                Draft { tree, failure: self.failure }
            },
            Err(error) => self.fail(error),
        }
    }

    fn optional_number(self, name: &str, value: Result<Option<u64>, Error>) -> (draft: Draft)
        ensures
            draft@ == with_optional_number(self@, name@, error::outcome(value)),
    {
        match value {
            Ok(Some(item)) => self.number(name, Ok(item)),
            Ok(None) => self,
            Err(error) => self.number(name, Err(error)),
        }
    }

    fn flag(self, name: &str, value: bool) -> (draft: Draft)
        ensures
            draft@ == with_flag(self@, name@, value),
    {
        let mut tree = self.tree;
        let _ = nvtree::nvtree_add(&mut tree, nvtree::nvtree_bool(name, value));
        Draft { tree, failure: self.failure }
    }

    fn texts(self, name: &str, value: Vec<String>) -> (draft: Draft)
        ensures
            draft@ == with_texts(self@, name@, text::views(value@)),
    {
        let mut tree = self.tree;
        let _ = nvtree::nvtree_add(&mut tree, text_list(name, value));
        Draft { tree, failure: self.failure }
    }

    fn refuse(self, applies: bool, message: &str) -> (draft: Draft)
        ensures
            draft@ == unless(self@, error_if(applies, message@)),
    {
        if applies {
            self.fail(Error::new(owned(message)))
        } else {
            self
        }
    }

    fn check(self, result: Result<(), Error>) -> (draft: Draft)
        ensures
            match result {
                Ok(_) => draft@ == unless(self@, None),
                Err(error) => draft@ == unless(self@, Some(error@)),
            },
    {
        match result {
            Ok(_) => self,
            Err(error) => self.fail(error),
        }
    }

    fn finish(self) -> (result: Result<Nvtree, Error>)
        ensures
            tree_result(result) == self@,
    {
        match self.failure {
            Some(error) => Err(error),
            None => Ok(self.tree),
        }
    }
}

/// What a result holds, as the contents of a tree.
pub open spec fn tree_result(result: Result<Nvtree, Error>) -> Result<Tree, Seq<char>> {
    match result {
        Ok(tree) => Ok(wire::content(tree)),
        Err(error) => Err(error@),
    }
}

/// A request under construction with a list of texts added.
pub open spec fn with_texts(
    draft: Result<Tree, Seq<char>>,
    name: Seq<char>,
    value: Seq<Seq<char>>,
) -> Result<Tree, Seq<char>> {
    match draft {
        Err(error) => Err(error),
        Ok(tree) => Ok(wire::put(tree, name, Value::Texts(value))),
    }
}

fn number_option(args: &Vec<String>, option: &str) -> (result: Result<Option<u64>, Error>)
    ensures
        error::outcome(result) == option_number(text::views(args@), option@),
{
    match optional_option(args, option) {
        Err(error) => Err(error),
        Ok(None) => Ok(None),
        Ok(Some(value)) => match parse_number(value.as_str(), u64::MAX) {
            Ok(number) => Ok(Some(number)),
            Err(error) => Err(
                caused(owned("invalid ").concat(option), error.message().as_str()),
            ),
        },
    }
}

/// The size that the value of `--size` gives.
pub open spec fn size_option(args: Seq<Seq<char>>) -> Result<u64, Seq<char>> {
    match needed_option(args, "--size"@) {
        Ok(value) => size_spec(value),
        Err(error) => Err(error),
    }
}

/// The request for `create`, whose arguments are `args`.
pub open spec fn create_request(draft: Result<Tree, Seq<char>>, args: Seq<Seq<char>>) -> Result<
    Tree,
    Seq<char>,
> {
    match arg_at(args, 0, "type"@) {
        Err(error) => unless(draft, Some(error)),
        Ok(resource) => {
            let draft = with_text(draft, "type"@, Ok(resource));
            if resource == "dataset"@ {
                let draft = with_text(draft, "dataset"@, arg_at(args, 1, "dataset"@));
                unless(draft, extra_error(args, 2))
            } else if resource == "volume"@ {
                let draft = with_text(draft, "volume"@, arg_at(args, 1, "volume"@));
                with_number(draft, "size"@, size_option(args))
            } else if resource == "jail"@ {
                let draft = with_text(draft, "name"@, positional_spec(args, 1, false));
                let draft = with_optional_text(draft, "set"@, option_value(args, "--set"@));
                let draft = with_optional_text(draft, "base"@, option_value(args, "--base"@));
                let draft = with_optional_text(
                    draft,
                    "version"@,
                    option_value(args, "--version"@),
                );
                let draft = with_optional_text(
                    draft,
                    "ssh_key"@,
                    option_value(args, "--ssh-key"@),
                );
                let draft = with_flag(draft, "start"@, args.contains("--start"@));
                let draft = unless(
                    draft,
                    error_if(
                        args.contains("--attach"@) && !args.contains("--start"@),
                        "--attach requires --start"@,
                    ),
                );
                with_flag(draft, "attach"@, args.contains("--attach"@))
            } else if resource == "base"@ {
                match arg_at(args, 1, "resource"@) {
                    Err(error) => unless(draft, Some(error)),
                    Ok(kind) => {
                        let draft = with_text(draft, "resource"@, Ok(kind));
                        if kind == "jail"@ {
                            let draft = with_text(draft, "name"@, positional_spec(args, 2, true));
                            let draft = with_optional_text(
                                draft,
                                "set"@,
                                option_value(args, "--set"@),
                            );
                            with_optional_text(
                                draft,
                                "version"@,
                                option_value(args, "--version"@),
                            )
                        } else {
                            let draft = with_text(draft, "name"@, arg_at(args, 2, "name"@));
                            if kind == "vm"@ {
                                unless(draft, extra_error(args, 3))
                            } else {
                                unless(draft, Some("unsupported base resource: "@ + kind))
                            }
                        }
                    },
                }
            } else if resource == "vm"@ {
                let cloud = args.contains("--cloud-init"@);
                let draft = unless(
                    draft,
                    error_if(
                        cloud && args.contains("--iso"@),
                        "--cloud-init and --iso are mutually exclusive"@,
                    ),
                );
                let draft = with_text(draft, "name"@, arg_at(args, 1, "name"@));
                let draft = with_text(draft, "disk"@, needed_option(args, "--disk"@));
                let draft = with_text(draft, "os"@, needed_option(args, "--os"@));
                let draft = with_optional_text(
                    draft,
                    "version"@,
                    option_value(args, "--version"@),
                );
                let draft = with_flag(draft, "cloud_init"@, cloud);
                let draft = unless(
                    draft,
                    error_if(
                        args.contains("--ssh-key"@) && !cloud,
                        "--ssh-key requires --cloud-init"@,
                    ),
                );
                let draft = with_optional_text(
                    draft,
                    "ssh_key"@,
                    option_value(args, "--ssh-key"@),
                );
                let draft = with_optional_text(draft, "iso"@, option_value(args, "--iso"@));
                let draft = with_optional_number(
                    draft,
                    "vnc_port"@,
                    option_number(args, "--vnc-port"@),
                );
                let draft = with_optional_text(
                    draft,
                    "vnc_bind"@,
                    option_value(args, "--vnc-bind"@),
                );
                let draft = with_optional_number(
                    draft,
                    "vnc_width"@,
                    option_number(args, "--vnc-width"@),
                );
                let draft = with_optional_number(
                    draft,
                    "vnc_height"@,
                    option_number(args, "--vnc-height"@),
                );
                let draft = with_flag(draft, "tpm"@, args.contains("--tpm"@));
                let draft = with_optional_number(draft, "cpus"@, option_number(args, "--cpus"@));
                let draft = with_optional_text(draft, "memory"@, option_value(args, "--memory"@));
                let draft = with_flag(draft, "start"@, cloud);
                let draft = unless(
                    draft,
                    error_if(
                        args.contains("--attach"@) && !cloud,
                        "--attach requires --cloud-init"@,
                    ),
                );
                with_flag(draft, "attach"@, args.contains("--attach"@))
            } else {
                unless(draft, Some("unsupported create type: "@ + resource))
            }
        },
    }
}

fn encode_create(draft: Draft, args: &Vec<String>) -> (result: Draft)
    ensures
        result@ == create_request(draft@, text::views(args@)),
{
    let kind = match require_arg(args, 0, "type") {
        Ok(kind) => kind,
        Err(error) => {
            return draft.fail(error);
        },
    };
    let resource = kind.as_str();
    let draft = draft.text("type", Ok(owned(resource)));
    if same(resource, "dataset") {
        draft.text("dataset", require_arg(args, 1, "dataset")).check(ensure_no_extra(args, 2))
    } else if same(resource, "volume") {
        let size = match named_option(args, "--size") {
            Ok(value) => parse_size(value.as_str()),
            Err(error) => Err(error),
        };
        draft.text("volume", require_arg(args, 1, "volume")).number("size", size)
    } else if same(resource, "jail") {
        let draft = draft.text("name", positional(args, 1, false)).optional_text(
            "set",
            optional_option(args, "--set"),
        ).optional_text("base", optional_option(args, "--base")).optional_text(
            "version",
            optional_option(args, "--version"),
        ).optional_text("ssh_key", optional_option(args, "--ssh-key"));
        draft.flag("start", has_flag(args, "--start")).refuse(
            has_flag(args, "--attach") && !has_flag(args, "--start"),
            "--attach requires --start",
        ).flag("attach", has_flag(args, "--attach"))
    } else if same(resource, "base") {
        match require_arg(args, 1, "resource") {
            Err(error) => draft.fail(error),
            Ok(kind) => {
                let draft = draft.text("resource", Ok(owned(kind.as_str())));
                if same(kind.as_str(), "jail") {
                    draft.text("name", positional(args, 2, true)).optional_text(
                        "set",
                        optional_option(args, "--set"),
                    ).optional_text("version", optional_option(args, "--version"))
                } else {
                    let draft = draft.text("name", require_arg(args, 2, "name"));
                    if same(kind.as_str(), "vm") {
                        draft.check(ensure_no_extra(args, 3))
                    } else {
                        draft.fail(
                            Error::new(
                                owned("unsupported base resource: ").concat(kind.as_str()),
                            ),
                        )
                    }
                }
            },
        }
    } else if same(resource, "vm") {
        let cloud = has_flag(args, "--cloud-init");
        let draft = draft.refuse(
            cloud && has_flag(args, "--iso"),
            "--cloud-init and --iso are mutually exclusive",
        ).text("name", require_arg(args, 1, "name")).text(
            "disk",
            named_option(args, "--disk"),
        ).text("os", named_option(args, "--os")).optional_text(
            "version",
            optional_option(args, "--version"),
        ).flag("cloud_init", cloud).refuse(
            has_flag(args, "--ssh-key") && !cloud,
            "--ssh-key requires --cloud-init",
        );
        let draft = draft.optional_text("ssh_key", optional_option(args, "--ssh-key")).optional_text(
            "iso",
            optional_option(args, "--iso"),
        ).optional_number("vnc_port", number_option(args, "--vnc-port")).optional_text(
            "vnc_bind",
            optional_option(args, "--vnc-bind"),
        ).optional_number("vnc_width", number_option(args, "--vnc-width")).optional_number(
            "vnc_height",
            number_option(args, "--vnc-height"),
        );
        draft.flag("tpm", has_flag(args, "--tpm")).optional_number(
            "cpus",
            number_option(args, "--cpus"),
        ).optional_text("memory", optional_option(args, "--memory")).flag("start", cloud).refuse(
            has_flag(args, "--attach") && !cloud,
            "--attach requires --cloud-init",
        ).flag("attach", has_flag(args, "--attach"))
    } else {
        draft.fail(Error::new(owned("unsupported create type: ").concat(resource)))
    }
}

/// What the arguments of `up` and `down` name besides their options: the service
/// and, for `up`, its provisioners.
pub open spec fn service_names(
    command: Seq<char>,
    args: Seq<Seq<char>>,
    from: int,
    name: Option<Seq<char>>,
    provisioners: Seq<Seq<char>>,
) -> Result<(Option<Seq<char>>, Seq<Seq<char>>), Seq<char>>
    decreases
        (if from < args.len() {
            args.len() - from
        } else {
            0
        }),
{
    if from < 0 || from >= args.len() {
        Ok((name, provisioners))
    } else {
        let arg = args[from];
        if arg == "--container"@ || arg == "--develop"@ || arg == "--service-dir"@ {
            service_names(command, args, from + 2, name, provisioners)
        } else if command == "up"@ && arg == "--provisioner"@ {
            if from + 1 < args.len() {
                service_names(command, args, from + 2, name, provisioners.push(args[from + 1]))
            } else {
                Err("missing value for --provisioner"@)
            }
        } else if text::starts_with_spec(arg, "-"@) {
            Err("unsupported "@ + command + " option: "@ + arg)
        } else if name is Some {
            Err("unexpected "@ + command + " arguments"@)
        } else {
            service_names(command, args, from + 1, Some(arg), provisioners)
        }
    }
}

/// The request for `up` or `down`, whose arguments are `args`.
pub open spec fn service_request(
    draft: Result<Tree, Seq<char>>,
    command: Seq<char>,
    args: Seq<Seq<char>>,
) -> Result<Tree, Seq<char>> {
    match option_value(args, "--container"@) {
        Err(error) => unless(draft, Some(error)),
        Ok(container) => {
            let container = match container {
                Some(container) => container,
                None => "jail"@,
            };
            if container != "jail"@ {
                unless(draft, Some("unsupported container: "@ + container))
            } else {
                match option_value(args, "--develop"@) {
                    Err(error) => unless(draft, Some(error)),
                    Ok(develop) => {
                        let develop = match develop {
                            Some(develop) => develop,
                            None => "false"@,
                        };
                        match text::parse_bool_spec(develop) {
                            None => unless(
                                draft,
                                Some(
                                    error::with_cause(
                                        "invalid --develop value: "@ + develop,
                                        "provided string was not `true` or `false`"@,
                                    ),
                                ),
                            ),
                            Some(develop) => match option_value(args, "--service-dir"@) {
                                Err(error) => unless(draft, Some(error)),
                                Ok(None) => unless(
                                    draft,
                                    Some(command + " requires --service-dir"@),
                                ),
                                Ok(Some(directory)) => match service_names(
                                    command,
                                    args,
                                    0,
                                    None,
                                    seq![],
                                ) {
                                    Err(error) => unless(draft, Some(error)),
                                    Ok((None, _)) => unless(
                                        draft,
                                        Some(command + " requires a service name"@),
                                    ),
                                    Ok((Some(name), provisioners)) => {
                                        let draft = with_text(draft, "container"@, Ok(container));
                                        let draft = with_flag(draft, "develop"@, develop);
                                        let draft = with_text(
                                            draft,
                                            "service_dir"@,
                                            Ok(directory),
                                        );
                                        let draft = with_text(draft, "name"@, Ok(name));
                                        if provisioners.len() > 0 {
                                            with_texts(draft, "provisioners"@, provisioners)
                                        } else {
                                            draft
                                        }
                                    },
                                },
                            },
                        }
                    },
                }
            }
        },
    }
}

/// What a scan of service arguments found, as characters.
spec fn names_result(result: Result<(Option<String>, Vec<String>), Error>) -> Result<
    (Option<Seq<char>>, Seq<Seq<char>>),
    Seq<char>,
> {
    match result {
        Ok((Some(name), provisioners)) => Ok((Some(name@), text::views(provisioners@))),
        Ok((None, provisioners)) => Ok((None, text::views(provisioners@))),
        Err(error) => Err(error@),
    }
}

fn scan_service(command: &str, args: &Vec<String>) -> (result: Result<
    (Option<String>, Vec<String>),
    Error,
>)
    ensures
        names_result(result) == service_names(command@, text::views(args@), 0, None, seq![]),
{
    let mut name: Option<String> = None;
    let mut provisioners: Vec<String> = Vec::new();
    let mut index: usize = 0;
    proof {
        assert(text::views(provisioners@) =~= seq![]);
    }
    while index < args.len()
        invariant
            service_names(command@, text::views(args@), 0, None, seq![]) == service_names(
                command@,
                text::views(args@),
                index as int,
                text::optional_view(name),
                text::views(provisioners@),
            ),
        decreases args@.len() - index,
    {
        let arg = args[index].as_str();
        if same(arg, "--container") || same(arg, "--develop") || same(arg, "--service-dir") {
            if index + 1 == args.len() {
                proof {
                    reveal_with_fuel(service_names, 2);
                }
                return Ok((name, provisioners));
            }
            index += 2;
        } else if same(command, "up") && same(arg, "--provisioner") {
            if index + 1 == args.len() {
                return Err(Error::new(owned("missing value for --provisioner")));
            }
            let ghost before = provisioners@;
            provisioners.push(args[index + 1].clone());
            proof {
                assert(text::views(provisioners@) =~= text::views(before).push(
                    text::views(args@)[index + 1],
                ));
            }
            index += 2;
        } else if starts_with(arg, "-") {
            return Err(
                Error::new(owned("unsupported ").concat(command).concat(" option: ").concat(arg)),
            );
        } else if name.is_some() {
            return Err(Error::new(owned("unexpected ").concat(command).concat(" arguments")));
        } else {
            name = Some(args[index].clone());
            index += 1;
        }
    }
    Ok((name, provisioners))
}

fn encode_service(draft: Draft, command: &str, args: &Vec<String>) -> (result: Draft)
    ensures
        result@ == service_request(draft@, command@, text::views(args@)),
{
    let container = match optional_option(args, "--container") {
        Ok(Some(container)) => container,
        Ok(None) => owned("jail"),
        Err(error) => {
            return draft.fail(error);
        },
    };
    if !same(container.as_str(), "jail") {
        return draft.fail(
            Error::new(owned("unsupported container: ").concat(container.as_str())),
        );
    }
    let develop_text = match optional_option(args, "--develop") {
        Ok(Some(develop)) => develop,
        Ok(None) => owned("false"),
        Err(error) => {
            return draft.fail(error);
        },
    };
    let develop = match parse_bool(develop_text.as_str()) {
        Some(develop) => develop,
        None => {
            return draft.fail(
                caused(
                    owned("invalid --develop value: ").concat(develop_text.as_str()),
                    "provided string was not `true` or `false`",
                ),
            );
        },
    };
    let directory = match optional_option(args, "--service-dir") {
        Ok(Some(directory)) => directory,
        Ok(None) => {
            return draft.fail(Error::new(owned(command).concat(" requires --service-dir")));
        },
        Err(error) => {
            return draft.fail(error);
        },
    };
    match scan_service(command, args) {
        Err(error) => draft.fail(error),
        Ok((None, _)) => draft.fail(
            Error::new(owned(command).concat(" requires a service name")),
        ),
        Ok((Some(name), provisioners)) => {
            let draft = draft.text("container", Ok(container)).flag("develop", develop).text(
                "service_dir",
                Ok(directory),
            ).text("name", Ok(name));
            if provisioners.len() > 0 {
                draft.texts("provisioners", provisioners)
            } else {
                draft
            }
        },
    }
}

/// The items of a comma separated list, trimmed, without the empty ones.
pub open spec fn trimmed_items(s: Seq<char>) -> Seq<Seq<char>> {
    text::non_empty(text::split_spec(s, ',').map_values(|item: Seq<char>| text::trim_spec(item)))
}

/// Reads a comma separated list of trimmed items, leaving out empty ones.
pub fn parse_trimmed(value: &str) -> (items: Vec<String>)
    ensures
        text::views(items@) == trimmed_items(value@),
{
    let parts = split(value, ',');
    let ghost trimmed = text::views(parts@).map_values(|item: Seq<char>| text::trim_spec(item));
    let mut items: Vec<String> = Vec::new();
    let mut index: usize = 0;
    proof {
        assert(text::views(items@) =~= text::non_empty(trimmed.take(0)));
    }
    while index < parts.len()
        invariant
            index <= parts@.len(),
            trimmed == text::views(parts@).map_values(|item: Seq<char>| text::trim_spec(item)),
            text::views(items@) == text::non_empty(trimmed.take(index as int)),
        decreases parts@.len() - index,
    {
        let item = trim(parts[index].as_str());
        let ghost before = items@;
        proof {
            assert(trimmed.take(index + 1).drop_last() =~= trimmed.take(index as int));
            assert(trimmed.take(index + 1).last() == item@);
        }
        if !item.as_str().is_empty() {
            items.push(item);
            proof {
                assert(text::views(items@) =~= text::views(before).push(item@));
            }
        }
        index += 1;
    }
    proof {
        assert(trimmed.take(index as int) =~= trimmed);
    }
    items
}

/// The request that command line arguments mean, or why they mean none.
pub open spec fn request_from_args_spec(args: Seq<Seq<char>>) -> Result<Tree, Seq<char>> {
    if args.len() == 0 {
        Err("request is missing command"@)
    } else if !supported_commands().contains(args[0]) {
        Err("unsupported command: "@ + args[0])
    } else {
        let command = args[0];
        let rest = args.skip(1);
        let draft = with_text(Ok(wire::empty_tree()), "command"@, Ok(command));
        if command == "create"@ {
            create_request(draft, rest)
        } else if command == "destroy"@ {
            let kind = arg_at(rest, 0, "type"@);
            let draft = with_text(draft, "type"@, kind);
            if kind == Ok::<Seq<char>, Seq<char>>("base"@) {
                let draft = with_text(draft, "resource"@, arg_at(rest, 1, "resource"@));
                with_text(draft, "name"@, arg_at(rest, 2, "name"@))
            } else {
                with_text(draft, "name"@, arg_at(rest, 1, "name"@))
            }
        } else if command == "start"@ || command == "stop"@ || command == "attach"@ {
            let draft = with_text(draft, "name"@, arg_at(rest, 0, "name"@));
            if command == "start"@ {
                let draft = with_flag(draft, "attach"@, rest.contains("--attach"@));
                unless(draft, extra_error(without_arg(rest, "--attach"@), 1))
            } else {
                draft
            }
        } else if command == "dependencies"@ {
            let draft = with_text(draft, "type"@, arg_at(rest, 0, "type"@));
            let draft = with_text(draft, "name"@, arg_at(rest, 1, "name"@));
            match arg_at(rest, 2, "dependencies"@) {
                Ok(list) => with_texts(draft, "dependencies"@, trimmed_items(list)),
                Err(error) => unless(draft, Some(error)),
            }
        } else if command == "enable"@ || command == "disable"@ {
            let draft = with_text(draft, "name"@, arg_at(rest, 0, "name"@));
            unless(draft, extra_error(args, 2))
        } else if command == "list"@ {
            with_text(draft, "resource"@, arg_at(rest, 0, "resource"@))
        } else if command == "version"@ {
            unless(draft, error_if(args.len() != 1, "version does not accept arguments"@))
        } else if command == "network-init"@ {
            unless(draft, error_if(args.len() != 1, "network-init does not accept arguments"@))
        } else {
            service_request(draft, command, rest)
        }
    }
}

/// Turns command line arguments into the request that they mean.
pub fn request_from_args(args: &[String]) -> (result: Result<Nvtree, Error>)
    ensures
        tree_result(result) == request_from_args_spec(text::views(args@)),
{
    let mut all: Vec<String> = Vec::new();
    let mut rest: Vec<String> = Vec::new();
    let mut index: usize = 0;
    while index < args.len()
        invariant
            index <= args@.len(),
            text::views(all@) == text::views(args@).take(index as int),
            index == 0 ==> rest@.len() == 0,
            index > 0 ==> text::views(rest@) == text::views(args@).subrange(1, index as int),
        decreases args@.len() - index,
    {
        let ghost all_before = all@;
        let ghost rest_before = rest@;
        all.push(args[index].clone());
        if index > 0 {
            rest.push(args[index].clone());
        }
        proof {
            let whole = text::views(args@);
            assert(text::views(all@) =~= text::views(all_before).push(whole[index as int]));
            assert(whole.take(index + 1) =~= whole.take(index as int).push(whole[index as int]));
            if index > 0 {
                assert(text::views(rest@) =~= text::views(rest_before).push(whole[index as int]));
                assert(whole.subrange(1, index + 1) =~= whole.subrange(1, index as int).push(
                    whole[index as int],
                ));
            } else {
                assert(text::views(rest@) =~= whole.subrange(1, 1));
            }
        }
        index += 1;
    }
    proof {
        assert(text::views(all@) =~= text::views(args@));
        assert(args@.len() > 0 ==> text::views(rest@) =~= text::views(args@).skip(1));
    }
    if all.len() == 0 {
        return Err(Error::new(owned("request is missing command")));
    }
    let command = all[0].as_str();
    if !is_supported(command) {
        return Err(Error::new(owned("unsupported command: ").concat(command)));
    }
    let draft = Draft::new(command);
    if same(command, "create") {
        encode_create(draft, &rest).finish()
    } else if same(command, "destroy") {
        let kind = require_arg(&rest, 0, "type");
        let base = match &kind {
            Ok(kind) => same(kind.as_str(), "base"),
            Err(_) => false,
        };
        let draft = draft.text("type", kind);
        if base {
            draft.text("resource", require_arg(&rest, 1, "resource")).text(
                "name",
                require_arg(&rest, 2, "name"),
            ).finish()
        } else {
            draft.text("name", require_arg(&rest, 1, "name")).finish()
        }
    } else if same(command, "start") || same(command, "stop") || same(command, "attach") {
        let draft = draft.text("name", require_arg(&rest, 0, "name"));
        if same(command, "start") {
            draft.flag("attach", has_flag(&rest, "--attach")).check(
                ensure_no_extra(&drop_arg(&rest, "--attach"), 1),
            ).finish()
        } else {
            draft.finish()
        }
    } else if same(command, "dependencies") {
        let draft = draft.text("type", require_arg(&rest, 0, "type")).text(
            "name",
            require_arg(&rest, 1, "name"),
        );
        match require_arg(&rest, 2, "dependencies") {
            Ok(list) => draft.texts("dependencies", parse_trimmed(list.as_str())).finish(),
            Err(error) => draft.fail(error).finish(),
        }
    } else if same(command, "enable") || same(command, "disable") {
        draft.text("name", require_arg(&rest, 0, "name")).check(ensure_no_extra(&all, 2)).finish()
    } else if same(command, "list") {
        draft.text("resource", require_arg(&rest, 0, "resource")).finish()
    } else if same(command, "version") {
        draft.refuse(all.len() != 1, "version does not accept arguments").finish()
    } else if same(command, "network-init") {
        draft.refuse(all.len() != 1, "network-init does not accept arguments").finish()
    } else {
        encode_service(draft, command, &rest).finish()
    }
}

// ---------------------------------------------------------------------------
// Laws
// ---------------------------------------------------------------------------

pub(crate) proof fn lemma_command_names()
    ensures
        "create"@.len() == 6 && "attach"@.len() == 6 && "enable"@.len() == 6,
        "destroy"@.len() == 7 && "version"@.len() == 7 && "disable"@.len() == 7,
        "stop"@.len() == 4 && "down"@.len() == 4 && "list"@.len() == 4,
        "network-init"@.len() == 12 && "dependencies"@.len() == 12,
        "start"@.len() == 5 && "up"@.len() == 2,
        "create"@ != "attach"@ && "create"@ != "enable"@ && "attach"@ != "enable"@,
        "destroy"@ != "version"@ && "destroy"@ != "disable"@ && "version"@ != "disable"@,
        "stop"@ != "down"@ && "stop"@ != "list"@ && "down"@ != "list"@,
        "network-init"@ != "dependencies"@,
{
    reveal_strlit("create");
    reveal_strlit("attach");
    reveal_strlit("enable");
    reveal_strlit("destroy");
    reveal_strlit("version");
    reveal_strlit("disable");
    reveal_strlit("stop");
    reveal_strlit("down");
    reveal_strlit("list");
    reveal_strlit("network-init");
    reveal_strlit("dependencies");
    reveal_strlit("start");
    reveal_strlit("up");
    assert("create"@[0] == 'c' && "attach"@[0] == 'a' && "enable"@[0] == 'e');
    assert("destroy"@[1] == 'e' && "version"@[0] == 'v' && "disable"@[1] == 'i'
        && "destroy"@[0] == 'd' && "disable"@[0] == 'd');
    assert("stop"@[0] == 's' && "down"@[0] == 'd' && "list"@[0] == 'l');
    assert("network-init"@[0] == 'n' && "dependencies"@[0] == 'd');
}

pub(crate) proof fn lemma_field_names()
    ensures
        "command"@.len() == 7 && "dataset"@.len() == 7 && "develop"@.len() == 7,
        "type"@.len() == 4 && "name"@.len() == 4 && "size"@.len() == 4,
        "attach"@.len() == 6 && "volume"@.len() == 6,
        "resource"@.len() == 8 && "dependencies"@.len() == 12,
        "container"@.len() == 9 && "service_dir"@.len() == 11,
        "command"@ != "dataset"@ && "command"@ != "develop"@ && "dataset"@ != "develop"@,
        "type"@ != "name"@ && "type"@ != "size"@ && "name"@ != "size"@,
        "attach"@ != "volume"@,
{
    reveal_strlit("command");
    reveal_strlit("dataset");
    reveal_strlit("develop");
    reveal_strlit("type");
    reveal_strlit("name");
    reveal_strlit("size");
    reveal_strlit("attach");
    reveal_strlit("volume");
    reveal_strlit("resource");
    reveal_strlit("dependencies");
    reveal_strlit("container");
    reveal_strlit("service_dir");
    assert("command"@[0] == 'c' && "dataset"@[1] == 'a' && "develop"@[1] == 'e' && "dataset"@[0]
        == 'd' && "develop"@[0] == 'd');
    assert("type"@[0] == 't' && "name"@[0] == 'n' && "size"@[0] == 's');
    assert("attach"@[0] == 'a' && "volume"@[0] == 'v');
}

// What is found after a field was added to a tree that the daemon made.
pub(crate) proof fn lemma_put(tree: Tree, name: Seq<char>, value: Value)
    ensures
        wire::get(wire::put(tree, name, value), name) == Some(value),
        forall|other: Seq<char>|
            other != name ==> #[trigger] wire::get(wire::put(tree, name, value), other)
                == wire::get(tree, other),
{
    wire::law_put_get(tree, name, value, name);
    assert forall|other: Seq<char>| other != name implies #[trigger] wire::get(
        wire::put(tree, name, value),
        other,
    ) == wire::get(tree, other) by {
        wire::law_put_get(tree, name, value, other);
    }
}

/// A command with one name survives the trip: its request means the arguments that
/// it came from.
#[verifier::spinoff_prover]
pub proof fn law_named_command_survives(command: Seq<char>, name: Seq<char>)
    requires
        command == "stop"@ || command == "attach"@ || command == "enable"@ || command
            == "disable"@ || command == "list"@ || (command == "start"@ && name != "--attach"@),
    ensures
        request_from_args_spec(seq![command, name]) matches Ok(tree) && request_to_args_spec(tree)
            == Ok::<Seq<Seq<char>>, Seq<char>>(seq![command, name]),
{
    lemma_command_names();
    lemma_field_names();
    let args = seq![command, name];
    let rest = args.skip(1);
    assert(rest =~= seq![name]);
    let start = wire::put(wire::empty_tree(), "command"@, Value::Text(command));
    lemma_put(wire::empty_tree(), "command"@, Value::Text(command));
    if command == "list"@ {
        lemma_put(start, "resource"@, Value::Text(name));
    } else {
        lemma_put(start, "name"@, Value::Text(name));
        let named = wire::put(start, "name"@, Value::Text(name));
        lemma_put(named, "attach"@, Value::Flag(false));
        if command == "start"@ {
            assert(!rest.contains("--attach"@));
            assert(rest.drop_last() =~= seq![]);
            reveal_with_fuel(without_arg, 2);
            assert(without_arg(rest, "--attach"@).len() == 1);
        }
    }
    assert(seq![command].push(name) =~= args);
}

/// `start --attach` survives the trip.
#[verifier::spinoff_prover]
pub proof fn law_start_attach_survives(name: Seq<char>)
    requires
        name != "--attach"@,
    ensures
        request_from_args_spec(seq!["start"@, name, "--attach"@]) matches Ok(tree)
            && request_to_args_spec(tree) == Ok::<Seq<Seq<char>>, Seq<char>>(
            seq!["start"@, name, "--attach"@],
        ),
{
    lemma_command_names();
    lemma_field_names();
    let args = seq!["start"@, name, "--attach"@];
    let rest = args.skip(1);
    assert(rest =~= seq![name, "--attach"@]);
    assert(rest[1] == "--attach"@);
    let start = wire::put(wire::empty_tree(), "command"@, Value::Text("start"@));
    lemma_put(wire::empty_tree(), "command"@, Value::Text("start"@));
    lemma_put(start, "name"@, Value::Text(name));
    let named = wire::put(start, "name"@, Value::Text(name));
    lemma_put(named, "attach"@, Value::Flag(true));
    assert(rest.drop_last() =~= seq![name]);
    assert(rest.drop_last().drop_last() =~= seq![]);
    reveal_with_fuel(without_arg, 3);
    assert(without_arg(rest, "--attach"@).len() == 1);
    assert(seq!["start"@].push(name).push("--attach"@) =~= args);
}

/// `version` and `network-init` survive the trip.
pub proof fn law_bare_command_survives(command: Seq<char>)
    requires
        command == "version"@ || command == "network-init"@,
    ensures
        request_from_args_spec(seq![command]) matches Ok(tree) && request_to_args_spec(tree) == Ok::<
            Seq<Seq<char>>,
            Seq<char>,
        >(seq![command]),
{
    lemma_command_names();
    lemma_field_names();
    lemma_put(wire::empty_tree(), "command"@, Value::Text(command));
}

/// `destroy` survives the trip.
#[verifier::spinoff_prover]
pub proof fn law_destroy_survives(kind: Seq<char>, name: Seq<char>)
    requires
        kind != "base"@,
    ensures
        request_from_args_spec(seq!["destroy"@, kind, name]) matches Ok(tree)
            && request_to_args_spec(tree) == Ok::<Seq<Seq<char>>, Seq<char>>(
            seq!["destroy"@, kind, name],
        ),
{
    lemma_command_names();
    lemma_field_names();
    let args = seq!["destroy"@, kind, name];
    assert(args.skip(1) =~= seq![kind, name]);
    let start = wire::put(wire::empty_tree(), "command"@, Value::Text("destroy"@));
    lemma_put(wire::empty_tree(), "command"@, Value::Text("destroy"@));
    let typed = wire::put(start, "type"@, Value::Text(kind));
    lemma_put(start, "type"@, Value::Text(kind));
    lemma_put(typed, "name"@, Value::Text(name));
    assert(seq!["destroy"@].push(kind).push(name) =~= args);
}

/// `destroy base` survives the trip.
#[verifier::spinoff_prover]
pub proof fn law_destroy_base_survives(resource: Seq<char>, name: Seq<char>)
    ensures
        request_from_args_spec(seq!["destroy"@, "base"@, resource, name]) matches Ok(tree)
            && request_to_args_spec(tree) == Ok::<Seq<Seq<char>>, Seq<char>>(
            seq!["destroy"@, "base"@, resource, name],
        ),
{
    lemma_command_names();
    lemma_field_names();
    let args = seq!["destroy"@, "base"@, resource, name];
    assert(args.skip(1) =~= seq!["base"@, resource, name]);
    let start = wire::put(wire::empty_tree(), "command"@, Value::Text("destroy"@));
    lemma_put(wire::empty_tree(), "command"@, Value::Text("destroy"@));
    let typed = wire::put(start, "type"@, Value::Text("base"@));
    lemma_put(start, "type"@, Value::Text("base"@));
    let kept = wire::put(typed, "resource"@, Value::Text(resource));
    lemma_put(typed, "resource"@, Value::Text(resource));
    lemma_put(kept, "name"@, Value::Text(name));
    assert(seq!["destroy"@].push("base"@).push(resource).push(name) =~= args);
}

proof fn lemma_create_names()
    ensures
        "dataset"@ != "volume"@,
        "dataset"@ != "jail"@,
        "dataset"@ != "base"@,
        "dataset"@ != "vm"@,
        "volume"@ != "jail"@,
        "volume"@ != "base"@,
        "volume"@ != "vm"@,
{
    reveal_strlit("dataset");
    reveal_strlit("volume");
    reveal_strlit("jail");
    reveal_strlit("base");
    reveal_strlit("vm");
    assert("dataset"@.len() == 7 && "volume"@.len() == 6 && "jail"@.len() == 4);
    assert("base"@.len() == 4 && "vm"@.len() == 2);
}

/// `create dataset` survives the trip: the name stands in a field of its own.
#[verifier::spinoff_prover]
pub proof fn law_create_dataset_survives(name: Seq<char>)
    ensures
        request_from_args_spec(seq!["create"@, "dataset"@, name]) matches Ok(tree) && text_at(
            tree,
            "dataset"@,
        ) == Some(name) && request_to_args_spec(tree) == Ok::<Seq<Seq<char>>, Seq<char>>(
            seq!["create"@, "dataset"@, name],
        ),
{
    lemma_command_names();
    lemma_field_names();
    lemma_create_names();
    let args = seq!["create"@, "dataset"@, name];
    assert(args.skip(1) =~= seq!["dataset"@, name]);
    let start = wire::put(wire::empty_tree(), "command"@, Value::Text("create"@));
    lemma_put(wire::empty_tree(), "command"@, Value::Text("create"@));
    let typed = wire::put(start, "type"@, Value::Text("dataset"@));
    lemma_put(start, "type"@, Value::Text("dataset"@));
    lemma_put(typed, "dataset"@, Value::Text(name));
    assert(seq!["create"@].push("dataset"@).push(name) =~= args);
}

/// `create volume` survives the trip with its size in bytes: a size that reads as a
/// number is sent as that number, and written out again in full.
#[verifier::spinoff_prover]
pub proof fn law_create_volume_survives(name: Seq<char>, size: Seq<char>, bytes: u64)
    requires
        name != "--size"@,
        size_spec(size) == Ok::<u64, Seq<char>>(bytes),
    ensures
        request_from_args_spec(seq!["create"@, "volume"@, name, "--size"@, size]) matches Ok(tree)
            && number_at(tree, "size"@) == Some(bytes) && request_to_args_spec(tree) == Ok::<
            Seq<Seq<char>>,
            Seq<char>,
        >(seq!["create"@, "volume"@, name, "--size"@, text::decimal_spec(bytes as nat)]),
{
    lemma_command_names();
    lemma_field_names();
    lemma_create_names();
    let args = seq!["create"@, "volume"@, name, "--size"@, size];
    let rest = args.skip(1);
    assert(rest =~= seq!["volume"@, name, "--size"@, size]);
    reveal_strlit("--size");
    assert("volume"@[0] != "--size"@[0]) by {
        reveal_strlit("volume");
    }
    reveal_with_fuel(arg_place, 4);
    assert(arg_place(rest, "--size"@, 0) == 2);
    let start = wire::put(wire::empty_tree(), "command"@, Value::Text("create"@));
    lemma_put(wire::empty_tree(), "command"@, Value::Text("create"@));
    let typed = wire::put(start, "type"@, Value::Text("volume"@));
    lemma_put(start, "type"@, Value::Text("volume"@));
    let named = wire::put(typed, "volume"@, Value::Text(name));
    lemma_put(typed, "volume"@, Value::Text(name));
    lemma_put(named, "size"@, Value::Number(bytes));
    assert(seq!["create"@].push("volume"@).push(name).push("--size"@).push(
        text::decimal_spec(bytes as nat),
    ) =~= seq!["create"@, "volume"@, name, "--size"@, text::decimal_spec(bytes as nat)]);
}

/// `create base` survives the trip, for a name that is no option.
#[verifier::spinoff_prover]
pub proof fn law_create_base_survives(kind: Seq<char>, name: Seq<char>)
    requires
        kind == "jail"@ || kind == "vm"@,
        option_width(name, true) == 0,
    ensures
        request_from_args_spec(seq!["create"@, "base"@, kind, name]) matches Ok(tree)
            && request_to_args_spec(tree) == Ok::<Seq<Seq<char>>, Seq<char>>(
            seq!["create"@, "base"@, kind, name],
        ),
{
    lemma_command_names();
    lemma_field_names();
    lemma_create_names();
    let args = seq!["create"@, "base"@, kind, name];
    let rest = args.skip(1);
    assert(rest =~= seq!["base"@, kind, name]);
    reveal_strlit("set");
    reveal_strlit("version");
    reveal_strlit("base");
    reveal_strlit("jail");
    reveal_strlit("vm");
    reveal_strlit("--set");
    reveal_strlit("--version");
    reveal_with_fuel(arg_place, 4);
    assert("base"@[0] == 'b' && "jail"@[0] == 'j');
    let start = wire::put(wire::empty_tree(), "command"@, Value::Text("create"@));
    lemma_put(wire::empty_tree(), "command"@, Value::Text("create"@));
    let typed = wire::put(start, "type"@, Value::Text("base"@));
    lemma_put(start, "type"@, Value::Text("base"@));
    let kept = wire::put(typed, "resource"@, Value::Text(kind));
    lemma_put(typed, "resource"@, Value::Text(kind));
    lemma_put(kept, "name"@, Value::Text(name));
    assert(arg_place(rest, "--set"@, 0) == rest.len());
    assert(arg_place(rest, "--version"@, 0) == rest.len());
    assert("version"@[0] == 'v' && "command"@[0] == 'c') by {
        reveal_strlit("command");
    }
    assert(seq!["create"@].push("base"@).push(kind).push(name) =~= args);
}

/// `dependencies` survives the trip with its list put in order: trimmed, and without
/// empty items.
#[verifier::spinoff_prover]
pub proof fn law_dependencies_survive(kind: Seq<char>, name: Seq<char>, list: Seq<char>)
    ensures
        request_from_args_spec(seq!["dependencies"@, kind, name, list]) matches Ok(tree) && texts_at(
            tree,
            "dependencies"@,
        ) == Some(trimmed_items(list)) && request_to_args_spec(tree) == Ok::<
            Seq<Seq<char>>,
            Seq<char>,
        >(seq!["dependencies"@, kind, name, text::join_spec(trimmed_items(list), ","@)]),
{
    lemma_command_names();
    lemma_field_names();
    let args = seq!["dependencies"@, kind, name, list];
    assert(args.skip(1) =~= seq![kind, name, list]);
    let start = wire::put(wire::empty_tree(), "command"@, Value::Text("dependencies"@));
    lemma_put(wire::empty_tree(), "command"@, Value::Text("dependencies"@));
    let typed = wire::put(start, "type"@, Value::Text(kind));
    lemma_put(start, "type"@, Value::Text(kind));
    let named = wire::put(typed, "name"@, Value::Text(name));
    lemma_put(typed, "name"@, Value::Text(name));
    lemma_put(named, "dependencies"@, Value::Texts(trimmed_items(list)));
    let joined = text::join_spec(trimmed_items(list), ","@);
    assert(seq!["dependencies"@].push(kind).push(name).push(joined) =~= seq![
        "dependencies"@,
        kind,
        name,
        joined,
    ]);
}

/// Arguments give a request only if their command is supported, and then the request
/// carries that command.
pub proof fn law_requests_carry_supported_commands(args: Seq<Seq<char>>)
    ensures
        request_from_args_spec(args) matches Ok(tree) ==> {
            &&& args.len() > 0
            &&& supported_commands().contains(args[0])
            &&& text_at(tree, "command"@) == Some(args[0])
        },
{
    if args.len() > 0 && supported_commands().contains(args[0]) {
        lemma_field_names();
        lemma_command_kept(args);
    }
}

spec fn carries(draft: Result<Tree, Seq<char>>, command: Seq<char>) -> bool {
    draft matches Ok(tree) ==> text_at(tree, "command"@) == Some(command)
}

proof fn lemma_carry(command: Seq<char>)
    ensures
        forall|draft: Result<Tree, Seq<char>>, name: Seq<char>, value: Result<Seq<char>, Seq<char>>|
            carries(draft, command) && name != "command"@ ==> carries(
                #[trigger] with_text(draft, name, value),
                command,
            ),
        forall|
            draft: Result<Tree, Seq<char>>,
            name: Seq<char>,
            value: Result<Option<Seq<char>>, Seq<char>>,
        |
            carries(draft, command) && name != "command"@ ==> carries(
                #[trigger] with_optional_text(draft, name, value),
                command,
            ),
        forall|draft: Result<Tree, Seq<char>>, name: Seq<char>, value: Result<u64, Seq<char>>|
            carries(draft, command) && name != "command"@ ==> carries(
                #[trigger] with_number(draft, name, value),
                command,
            ),
        forall|
            draft: Result<Tree, Seq<char>>,
            name: Seq<char>,
            value: Result<Option<u64>, Seq<char>>,
        |
            carries(draft, command) && name != "command"@ ==> carries(
                #[trigger] with_optional_number(draft, name, value),
                command,
            ),
        forall|draft: Result<Tree, Seq<char>>, name: Seq<char>, value: bool|
            carries(draft, command) && name != "command"@ ==> carries(
                #[trigger] with_flag(draft, name, value),
                command,
            ),
        forall|draft: Result<Tree, Seq<char>>, name: Seq<char>, value: Seq<Seq<char>>|
            carries(draft, command) && name != "command"@ ==> carries(
                #[trigger] with_texts(draft, name, value),
                command,
            ),
        forall|draft: Result<Tree, Seq<char>>, failure: Option<Seq<char>>|
            carries(draft, command) ==> carries(#[trigger] unless(draft, failure), command),
{
    assert forall|tree: Tree, name: Seq<char>, value: Value|
        name != "command"@ implies wire::get(
        #[trigger] wire::put(tree, name, value),
        "command"@,
    ) == wire::get(tree, "command"@) by {
        wire::law_put_get(tree, name, value, "command"@);
    }
}

proof fn lemma_create_fields()
    ensures
        "command"@.len() == 7,
        "version"@ != "command"@ && "ssh_key"@ != "command"@,
        "set"@.len() == 3 && "base"@.len() == 4 && "start"@.len() == 5 && "disk"@.len() == 4,
        "os"@.len() == 2 && "cloud_init"@.len() == 10 && "iso"@.len() == 3,
        "vnc_port"@.len() == 8 && "vnc_bind"@.len() == 8 && "vnc_width"@.len() == 9,
        "vnc_height"@.len() == 10 && "tpm"@.len() == 3 && "cpus"@.len() == 4,
        "memory"@.len() == 6 && "provisioners"@.len() == 12,
{
    reveal_strlit("command");
    reveal_strlit("version");
    reveal_strlit("ssh_key");
    reveal_strlit("set");
    reveal_strlit("base");
    reveal_strlit("start");
    reveal_strlit("disk");
    reveal_strlit("os");
    reveal_strlit("cloud_init");
    reveal_strlit("iso");
    reveal_strlit("vnc_port");
    reveal_strlit("vnc_bind");
    reveal_strlit("vnc_width");
    reveal_strlit("vnc_height");
    reveal_strlit("tpm");
    reveal_strlit("cpus");
    reveal_strlit("memory");
    reveal_strlit("provisioners");
    assert("command"@[0] == 'c' && "version"@[0] == 'v' && "ssh_key"@[0] == 's');
}

proof fn lemma_create_kept(draft: Result<Tree, Seq<char>>, args: Seq<Seq<char>>, command: Seq<char>)
    requires
        carries(draft, command),
    ensures
        carries(create_request(draft, args), command),
{
    lemma_field_names();
    lemma_create_fields();
    lemma_carry(command);
}

proof fn lemma_service_kept(draft: Result<Tree, Seq<char>>, args: Seq<Seq<char>>, command: Seq<char>)
    requires
        carries(draft, command),
    ensures
        carries(service_request(draft, command, args), command),
{
    lemma_field_names();
    lemma_create_fields();
    lemma_carry(command);
}

proof fn lemma_command_kept(args: Seq<Seq<char>>)
    requires
        args.len() > 0,
        supported_commands().contains(args[0]),
    ensures
        carries(request_from_args_spec(args), args[0]),
{
    let command = args[0];
    let rest = args.skip(1);
    lemma_field_names();
    lemma_put(wire::empty_tree(), "command"@, Value::Text(command));
    let draft = with_text(Ok(wire::empty_tree()), "command"@, Ok(command));
    assert(carries(draft, command));
    lemma_carry(command);
    lemma_create_kept(draft, rest, command);
    lemma_service_kept(draft, rest, command);
}

/// A volume is not requested without its size, nor a virtual machine without its disk and
/// its operating system.
pub proof fn law_create_needs_its_options(args: Seq<Seq<char>>)
    requires
        args.len() > 1,
        args[0] == "create"@,
        (args[1] == "volume"@ && !args.contains("--size"@)) || (args[1] == "vm"@ && (
        !args.contains("--disk"@) || !args.contains("--os"@))),
    ensures
        request_from_args_spec(args) is Err,
{
    lemma_create_names();
    lemma_kinds();
    let rest = args.skip(1);
    assert forall|i: int| 0 <= i < rest.len() implies args.contains(#[trigger] rest[i]) by {
        assert(rest[i] == args[i + 1]);
    }
    lemma_arg_place(rest, "--size"@, 0);
    lemma_arg_place(rest, "--disk"@, 0);
    lemma_arg_place(rest, "--os"@, 0);
}

proof fn lemma_kinds()
    ensures
        "volume"@ != "dataset"@ && "vm"@ != "dataset"@ && "vm"@ != "volume"@,
        "vm"@ != "jail"@ && "vm"@ != "base"@,
{
    reveal_strlit("volume");
    reveal_strlit("dataset");
    reveal_strlit("vm");
    reveal_strlit("jail");
    reveal_strlit("base");
    assert("volume"@.len() == 6 && "dataset"@.len() == 7 && "vm"@.len() == 2 && "jail"@.len() == 4
        && "base"@.len() == 4);
}

/// The value of an option is what stands behind its first occurrence; an option that does not
/// occur has none, and one that nothing stands behind is an error.
pub proof fn law_option_values_follow(args: Seq<Seq<char>>, option: Seq<char>, at: int)
    requires
        0 <= at <= args.len(),
        forall|i: int| 0 <= i < at ==> #[trigger] args[i] != option,
        at < args.len() ==> args[at] == option,
    ensures
        at == args.len() ==> option_value(args, option) == Ok::<Option<Seq<char>>, Seq<char>>(None),
        at + 1 == args.len() ==> option_value(args, option) is Err,
        at + 1 < args.len() ==> option_value(args, option) == Ok::<Option<Seq<char>>, Seq<char>>(
            Some(args[at + 1]),
        ),
{
    lemma_arg_place(args, option, 0);
    let place = arg_place(args, option, 0);
    assert(place == at) by {
        if place < at {
            assert(args[place] != option);
        }
    }
}

/// A size is a number, or a number of thousands, millions, billions or trillions by the letter
/// behind it, in whatever case; what does not fit is the largest size there is.
pub proof fn law_sizes_have_units(n: nat, unit: char)
    requires
        n <= u64::MAX,
    ensures
        ({
            let digits = text::decimal_spec(n);
            let factor: nat = if unit == 'K' || unit == 'k' {
                1_000
            } else if unit == 'M' || unit == 'm' {
                1_000_000
            } else if unit == 'G' || unit == 'g' {
                1_000_000_000
            } else {
                1_000_000_000_000
            };
            &&& size_spec(digits) == Ok::<u64, Seq<char>>(n as u64)
            &&& unit == 'K' || unit == 'k' || unit == 'M' || unit == 'm' || unit == 'G' || unit
                == 'g' || unit == 'T' || unit == 't' ==> size_spec(digits.push(unit)) == Ok::<
                u64,
                Seq<char>,
            >(
                if n * factor > u64::MAX {
                    u64::MAX
                } else {
                    (n * factor) as u64
                },
            )
        }),
{
    let digits = text::decimal_spec(n);
    text::law_decimal_reads_back(n, u64::MAX as nat);
    assert(text::is_digit(digits[digits.len() - 1]));
    assert(digits.push(unit).drop_last() =~= digits);
    assert(n * 1 == n);
}

proof fn lemma_option_fields()
    ensures
        "set"@.len() == 3 && "iso"@.len() == 3 && "tpm"@.len() == 3,
        "set"@ != "iso"@ && "set"@ != "tpm"@ && "iso"@ != "tpm"@,
        "disk"@ != "type"@ && "disk"@ != "name"@ && "disk"@ != "cpus"@ && "disk"@ != "base"@,
        "cpus"@ != "type"@ && "cpus"@ != "name"@ && "cpus"@ != "base"@,
        "base"@ != "type"@ && "base"@ != "name"@,
        "memory"@ != "attach"@,
        "version"@ != "ssh_key"@ && "version"@ != "command"@ && "ssh_key"@ != "command"@,
        "version"@.len() == 7 && "ssh_key"@.len() == 7,
        "vnc_port"@ != "vnc_bind"@ && "cloud_init"@ != "vnc_height"@,
        "vnc_port"@ != "resource"@ && "vnc_bind"@ != "resource"@,
{
    reveal_strlit("set");
    reveal_strlit("iso");
    reveal_strlit("tpm");
    reveal_strlit("disk");
    reveal_strlit("cpus");
    reveal_strlit("base");
    reveal_strlit("type");
    reveal_strlit("name");
    reveal_strlit("memory");
    reveal_strlit("attach");
    reveal_strlit("version");
    reveal_strlit("ssh_key");
    reveal_strlit("command");
    reveal_strlit("vnc_port");
    reveal_strlit("vnc_bind");
    reveal_strlit("resource");
    reveal_strlit("cloud_init");
    reveal_strlit("vnc_height");
    assert("set"@[0] == 's' && "iso"@[0] == 'i' && "tpm"@[0] == 't');
    assert("disk"@[0] == 'd' && "cpus"@[0] == 'c' && "base"@[0] == 'b');
    assert("type"@[0] == 't' && "name"@[0] == 'n');
    assert("memory"@[0] == 'm' && "attach"@[0] == 'a');
    assert("version"@[0] == 'v' && "ssh_key"@[0] == 's' && "command"@[0] == 'c');
    assert("vnc_port"@[4] == 'p' && "vnc_bind"@[4] == 'b' && "resource"@[0] == 'r');
    assert("vnc_port"@[0] == 'v' && "vnc_bind"@[0] == 'v');
    assert("cloud_init"@[0] == 'c' && "vnc_height"@[0] == 'v');
}

/// The request for a jail holds what was asked for: the name, and behind each option its
/// value, in the field of that name. To attach to it takes to start it.
#[verifier::spinoff_prover]
#[verifier::rlimit(40)]
pub proof fn law_jail_request_holds_its_options(args: Seq<Seq<char>>, tree: Tree)
    requires
        args.len() > 1,
        args[0] == "create"@,
        args[1] == "jail"@,
        request_from_args_spec(args) == Ok::<Tree, Seq<char>>(tree),
    ensures
        ({
            let rest = args.skip(1);
            &&& text_at(tree, "command"@) == Some("create"@)
            &&& text_at(tree, "type"@) == Some("jail"@)
            &&& positional_spec(rest, 1, false) matches Ok(name) && text_at(tree, "name"@) == Some(
                name,
            )
            &&& option_value(rest, "--set"@) == Ok::<Option<Seq<char>>, Seq<char>>(
                text_at(tree, "set"@),
            )
            &&& option_value(rest, "--base"@) == Ok::<Option<Seq<char>>, Seq<char>>(
                text_at(tree, "base"@),
            )
            &&& option_value(rest, "--version"@) == Ok::<Option<Seq<char>>, Seq<char>>(
                text_at(tree, "version"@),
            )
            &&& option_value(rest, "--ssh-key"@) == Ok::<Option<Seq<char>>, Seq<char>>(
                text_at(tree, "ssh_key"@),
            )
            &&& flag_at(tree, "start"@) == Some(rest.contains("--start"@))
            &&& flag_at(tree, "attach"@) == Some(rest.contains("--attach"@))
            &&& rest.contains("--attach"@) ==> rest.contains("--start"@)
        }),
{
    lemma_field_names();
    lemma_create_fields();
    lemma_option_fields();
    lemma_create_names();
    lemma_kinds();
    lemma_supported("create"@);
}

proof fn lemma_supported(command: Seq<char>)
    requires
        command == "create"@,
    ensures
        supported_commands().contains(command),
{
}

/// The request for a virtual machine holds what was asked for: the name, and behind each option
/// its value, in the field of that name. What it cannot do without is there.
#[verifier::spinoff_prover]
#[verifier::rlimit(80)]
pub proof fn law_vm_request_holds_its_options(args: Seq<Seq<char>>, tree: Tree)
    requires
        args.len() > 1,
        args[0] == "create"@,
        args[1] == "vm"@,
        request_from_args_spec(args) == Ok::<Tree, Seq<char>>(tree),
    ensures
        ({
            let rest = args.skip(1);
            let cloud = rest.contains("--cloud-init"@);
            &&& text_at(tree, "command"@) == Some("create"@)
            &&& text_at(tree, "type"@) == Some("vm"@)
            &&& args.len() > 2 && text_at(tree, "name"@) == Some(args[2])
            &&& text_at(tree, "disk"@) is Some && option_value(rest, "--disk"@) == Ok::<
                Option<Seq<char>>,
                Seq<char>,
            >(text_at(tree, "disk"@))
            &&& text_at(tree, "os"@) is Some && option_value(rest, "--os"@) == Ok::<
                Option<Seq<char>>,
                Seq<char>,
            >(text_at(tree, "os"@))
            &&& option_value(rest, "--version"@) == Ok::<Option<Seq<char>>, Seq<char>>(
                text_at(tree, "version"@),
            )
            &&& option_value(rest, "--ssh-key"@) == Ok::<Option<Seq<char>>, Seq<char>>(
                text_at(tree, "ssh_key"@),
            )
            &&& option_value(rest, "--iso"@) == Ok::<Option<Seq<char>>, Seq<char>>(
                text_at(tree, "iso"@),
            )
            &&& option_value(rest, "--vnc-bind"@) == Ok::<Option<Seq<char>>, Seq<char>>(
                text_at(tree, "vnc_bind"@),
            )
            &&& option_value(rest, "--memory"@) == Ok::<Option<Seq<char>>, Seq<char>>(
                text_at(tree, "memory"@),
            )
            &&& option_number(rest, "--vnc-port"@) == Ok::<Option<u64>, Seq<char>>(
                number_at(tree, "vnc_port"@),
            )
            &&& option_number(rest, "--vnc-width"@) == Ok::<Option<u64>, Seq<char>>(
                number_at(tree, "vnc_width"@),
            )
            &&& option_number(rest, "--vnc-height"@) == Ok::<Option<u64>, Seq<char>>(
                number_at(tree, "vnc_height"@),
            )
            &&& option_number(rest, "--cpus"@) == Ok::<Option<u64>, Seq<char>>(
                number_at(tree, "cpus"@),
            )
            &&& flag_at(tree, "tpm"@) == Some(rest.contains("--tpm"@))
            &&& flag_at(tree, "cloud_init"@) == Some(cloud)
            &&& flag_at(tree, "start"@) == Some(cloud)
            &&& flag_at(tree, "attach"@) == Some(rest.contains("--attach"@))
            &&& cloud ==> !rest.contains("--iso"@)
            &&& rest.contains("--ssh-key"@) || rest.contains("--attach"@) ==> cloud
        }),
{
    lemma_field_names();
    lemma_create_fields();
    lemma_option_fields();
    lemma_create_names();
    lemma_kinds();
    lemma_supported("create"@);
}

/// The number of an option is the number that stands behind it in decimal notation.
pub proof fn law_numbers_follow_their_options(args: Seq<Seq<char>>, option: Seq<char>, n: u64)
    requires
        option_value(args, option) == Ok::<Option<Seq<char>>, Seq<char>>(
            Some(text::decimal_spec(n as nat)),
        ),
    ensures
        option_number(args, option) == Ok::<Option<u64>, Seq<char>>(Some(n)),
{
    text::law_decimal_reads_back(n as nat, u64::MAX as nat);
}

/// Whether an option stands among arguments with its value right behind it.
pub open spec fn has_option(args: Seq<Seq<char>>, option: Seq<char>, value: Seq<char>) -> bool {
    exists|i: int| 0 <= i < args.len() - 1 && #[trigger] args[i] == option && args[i + 1] == value
}

/// Whether one list of arguments begins with another.
spec fn begins_with(args: Seq<Seq<char>>, first: Seq<Seq<char>>) -> bool {
    first.len() <= args.len() && forall|i: int| 0 <= i < first.len() ==> #[trigger] args[i] == first[i]
}

proof fn lemma_option_kept(
    args: Seq<Seq<char>>,
    first: Seq<Seq<char>>,
    option: Seq<char>,
    value: Seq<char>,
)
    requires
        begins_with(args, first),
        has_option(first, option, value),
    ensures
        has_option(args, option, value),
{
    let i = choose|i: int|
        0 <= i < first.len() - 1 && #[trigger] first[i] == option && first[i + 1] == value;
    assert(args[i] == option && args[i + 1] == first[i + 1]);
}

proof fn lemma_option_pushed(
    args: Result<Seq<Seq<char>>, Seq<char>>,
    option: Seq<char>,
    value: Option<Seq<char>>,
)
    requires
        args is Ok,
    ensures
        push_option(args, option, value) is Ok,
        begins_with(push_option(args, option, value)->Ok_0, args->Ok_0),
        value matches Some(item) ==> has_option(
            push_option(args, option, value)->Ok_0,
            option,
            item,
        ),
{
    if let Some(item) = value {
        let after = args->Ok_0.push(option).push(item);
        assert(after[args->Ok_0.len() as int] == option);
        assert(after[(args->Ok_0.len() + 1) as int] == item);
    }
}

proof fn lemma_flag_pushed(
    args: Result<Seq<Seq<char>>, Seq<char>>,
    option: Seq<char>,
    set: bool,
)
    requires
        args is Ok,
    ensures
        push_flag(args, option, Ok(set)) is Ok,
        begins_with(push_flag(args, option, Ok(set))->Ok_0, args->Ok_0),
        set ==> push_flag(args, option, Ok(set))->Ok_0.last() == option && push_flag(
            args,
            option,
            Ok(set),
        )->Ok_0.len() > args->Ok_0.len(),
{
}

proof fn lemma_needed_option_pushed(
    args: Result<Seq<Seq<char>>, Seq<char>>,
    option: Seq<char>,
    value: Seq<char>,
)
    requires
        args is Ok,
    ensures
        push_arg(push_arg(args, Ok(option)), Ok(value)) == push_option(args, option, Some(value)),
{
}

/// The arguments of a request for a jail hold what the request holds: the name behind the
/// kind, and each option with its value. A jail that is to be started or attached to is
/// asked for as such.
#[verifier::spinoff_prover]
#[verifier::rlimit(40)]
pub proof fn law_jail_args_hold_the_request(tree: Tree, name: Seq<char>, start: bool)
    requires
        text_at(tree, "type"@) == Some("jail"@),
        text_at(tree, "name"@) == Some(name),
        flag_at(tree, "cloud_init"@) == Some(start),
    ensures
        create_args_spec(tree) matches Ok(args) && {
            &&& args.len() >= 3 && args[0] == "create"@ && args[1] == "jail"@ && args[2] == name
            &&& text_at(tree, "set"@) matches Some(set) ==> has_option(args, "--set"@, set)
            &&& text_at(tree, "base"@) matches Some(base) ==> has_option(args, "--base"@, base)
            &&& text_at(tree, "version"@) matches Some(version) ==> has_option(
                args,
                "--version"@,
                version,
            )
            &&& text_at(tree, "ssh_key"@) matches Some(key) ==> has_option(args, "--ssh-key"@, key)
            &&& start ==> args.contains("--start"@)
            &&& flag_at(tree, "attach"@) == Some(true) ==> args.last() == "--attach"@
        },
{
    lemma_create_names();
    let a: Result<Seq<Seq<char>>, Seq<char>> = Ok(seq!["create"@, "jail"@, name]);
    assert(push_arg(push_arg(Ok(seq!["create"@]), Ok("jail"@)), need_text(tree, "name"@))->Ok_0
        =~= a->Ok_0);
    let b = push_option(a, "--set"@, text_at(tree, "set"@));
    lemma_option_pushed(a, "--set"@, text_at(tree, "set"@));
    let c = push_option(b, "--base"@, text_at(tree, "base"@));
    lemma_option_pushed(b, "--base"@, text_at(tree, "base"@));
    let d = push_option(c, "--version"@, text_at(tree, "version"@));
    lemma_option_pushed(c, "--version"@, text_at(tree, "version"@));
    let e = push_option(d, "--ssh-key"@, text_at(tree, "ssh_key"@));
    lemma_option_pushed(d, "--ssh-key"@, text_at(tree, "ssh_key"@));
    let f = push_flag(e, "--start"@, Ok(start));
    lemma_flag_pushed(e, "--start"@, start);
    let attach = flag_at(tree, "attach"@) == Some(true);
    let g = push_flag(f, "--attach"@, Ok(attach));
    lemma_flag_pushed(f, "--attach"@, attach);
    assert(create_args_spec(tree) == g);
    let args = g->Ok_0;
    assert(begins_with(args, b->Ok_0));
    assert(begins_with(args, c->Ok_0));
    assert(begins_with(args, d->Ok_0));
    assert(begins_with(args, e->Ok_0));
    if let Some(set) = text_at(tree, "set"@) {
        lemma_option_kept(args, b->Ok_0, "--set"@, set);
    }
    if let Some(base) = text_at(tree, "base"@) {
        lemma_option_kept(args, c->Ok_0, "--base"@, base);
    }
    if let Some(version) = text_at(tree, "version"@) {
        lemma_option_kept(args, d->Ok_0, "--version"@, version);
    }
    if let Some(key) = text_at(tree, "ssh_key"@) {
        lemma_option_kept(args, e->Ok_0, "--ssh-key"@, key);
    }
    if start {
        assert(args[f->Ok_0.len() - 1] == "--start"@);
    }
    assert(begins_with(args, a->Ok_0));
    assert(args[0] == a->Ok_0[0] && args[1] == a->Ok_0[1] && args[2] == a->Ok_0[2]);
}

/// The arguments of a request for a virtual machine hold what the request holds: the name
/// behind the kind, and each option with its value, a number in decimal digits.
#[verifier::spinoff_prover]
#[verifier::rlimit(60)]
pub proof fn law_vm_args_hold_the_request(
    tree: Tree,
    name: Seq<char>,
    disk: Seq<char>,
    os: Seq<char>,
    cloud_init: bool,
    tpm: bool,
)
    requires
        text_at(tree, "type"@) == Some("vm"@),
        text_at(tree, "name"@) == Some(name),
        text_at(tree, "disk"@) == Some(disk),
        text_at(tree, "os"@) == Some(os),
        flag_at(tree, "cloud_init"@) == Some(cloud_init),
        flag_at(tree, "tpm"@) == Some(tpm),
    ensures
        create_args_spec(tree) matches Ok(args) && {
            &&& args.len() >= 3 && args[0] == "create"@ && args[1] == "vm"@ && args[2] == name
            &&& has_option(args, "--disk"@, disk)
            &&& has_option(args, "--os"@, os)
            &&& text_at(tree, "version"@) matches Some(v) ==> has_option(args, "--version"@, v)
            &&& text_at(tree, "ssh_key"@) matches Some(v) ==> has_option(args, "--ssh-key"@, v)
            &&& text_at(tree, "iso"@) matches Some(v) ==> has_option(args, "--iso"@, v)
            &&& number_at(tree, "vnc_port"@) matches Some(v) ==> has_option(
                args,
                "--vnc-port"@,
                text::decimal_spec(v as nat),
            )
            &&& text_at(tree, "vnc_bind"@) matches Some(v) ==> has_option(args, "--vnc-bind"@, v)
            &&& number_at(tree, "vnc_width"@) matches Some(v) ==> has_option(
                args,
                "--vnc-width"@,
                text::decimal_spec(v as nat),
            )
            &&& number_at(tree, "vnc_height"@) matches Some(v) ==> has_option(
                args,
                "--vnc-height"@,
                text::decimal_spec(v as nat),
            )
            &&& number_at(tree, "cpus"@) matches Some(v) ==> has_option(
                args,
                "--cpus"@,
                text::decimal_spec(v as nat),
            )
            &&& text_at(tree, "memory"@) matches Some(v) ==> has_option(args, "--memory"@, v)
            &&& cloud_init ==> args.contains("--cloud-init"@)
            &&& tpm ==> args.contains("--tpm"@)
            &&& flag_at(tree, "start"@) == Some(true) ==> args.contains("--start"@)
            &&& flag_at(tree, "attach"@) == Some(true) ==> args.last() == "--attach"@
        },
{
    lemma_create_names();
    assert("base"@[0] == 'b' && "vm"@[0] == 'v' && "jail"@[0] == 'j') by {
        reveal_strlit("base");
        reveal_strlit("vm");
        reveal_strlit("jail");
    }
    let a: Result<Seq<Seq<char>>, Seq<char>> = Ok(seq!["create"@, "vm"@, name]);
    assert(push_arg(push_arg(Ok(seq!["create"@]), Ok("vm"@)), need_text(tree, "name"@))->Ok_0
        =~= a->Ok_0);
    let b = push_option(a, "--disk"@, Some(disk));
    lemma_needed_option_pushed(a, "--disk"@, disk);
    lemma_option_pushed(a, "--disk"@, Some(disk));
    let c = push_option(b, "--os"@, Some(os));
    lemma_needed_option_pushed(b, "--os"@, os);
    lemma_option_pushed(b, "--os"@, Some(os));
    let d = push_option(c, "--version"@, text_at(tree, "version"@));
    lemma_option_pushed(c, "--version"@, text_at(tree, "version"@));
    let e = push_flag(d, "--cloud-init"@, Ok(cloud_init));
    lemma_flag_pushed(d, "--cloud-init"@, cloud_init);
    let f = push_option(e, "--ssh-key"@, text_at(tree, "ssh_key"@));
    lemma_option_pushed(e, "--ssh-key"@, text_at(tree, "ssh_key"@));
    let g = push_option(f, "--iso"@, text_at(tree, "iso"@));
    lemma_option_pushed(f, "--iso"@, text_at(tree, "iso"@));
    let port = number_text(number_at(tree, "vnc_port"@));
    let h = push_option(g, "--vnc-port"@, port);
    lemma_option_pushed(g, "--vnc-port"@, port);
    let i = push_option(h, "--vnc-bind"@, text_at(tree, "vnc_bind"@));
    lemma_option_pushed(h, "--vnc-bind"@, text_at(tree, "vnc_bind"@));
    let width = number_text(number_at(tree, "vnc_width"@));
    let j = push_option(i, "--vnc-width"@, width);
    lemma_option_pushed(i, "--vnc-width"@, width);
    let height = number_text(number_at(tree, "vnc_height"@));
    let k = push_option(j, "--vnc-height"@, height);
    lemma_option_pushed(j, "--vnc-height"@, height);
    let l = push_flag(k, "--tpm"@, Ok(tpm));
    lemma_flag_pushed(k, "--tpm"@, tpm);
    let cpus = number_text(number_at(tree, "cpus"@));
    let m = push_option(l, "--cpus"@, cpus);
    lemma_option_pushed(l, "--cpus"@, cpus);
    let n = push_option(m, "--memory"@, text_at(tree, "memory"@));
    lemma_option_pushed(m, "--memory"@, text_at(tree, "memory"@));
    let start = flag_at(tree, "start"@) == Some(true);
    let o = push_flag(n, "--start"@, Ok(start));
    lemma_flag_pushed(n, "--start"@, start);
    let attach = flag_at(tree, "attach"@) == Some(true);
    let p = push_flag(o, "--attach"@, Ok(attach));
    lemma_flag_pushed(o, "--attach"@, attach);
    assert(create_args_spec(tree) == p);
    let args = p->Ok_0;
    lemma_begin_chain(args, o->Ok_0, n->Ok_0);
    lemma_begin_chain(args, n->Ok_0, m->Ok_0);
    lemma_begin_chain(args, m->Ok_0, l->Ok_0);
    lemma_begin_chain(args, l->Ok_0, k->Ok_0);
    lemma_begin_chain(args, k->Ok_0, j->Ok_0);
    lemma_begin_chain(args, j->Ok_0, i->Ok_0);
    lemma_begin_chain(args, i->Ok_0, h->Ok_0);
    lemma_begin_chain(args, h->Ok_0, g->Ok_0);
    lemma_begin_chain(args, g->Ok_0, f->Ok_0);
    lemma_begin_chain(args, f->Ok_0, e->Ok_0);
    lemma_begin_chain(args, e->Ok_0, d->Ok_0);
    lemma_begin_chain(args, d->Ok_0, c->Ok_0);
    lemma_begin_chain(args, c->Ok_0, b->Ok_0);
    lemma_begin_chain(args, b->Ok_0, a->Ok_0);
    lemma_option_kept(args, b->Ok_0, "--disk"@, disk);
    lemma_option_kept(args, c->Ok_0, "--os"@, os);
    lemma_option_stays(args, d->Ok_0, "--version"@, text_at(tree, "version"@));
    lemma_option_stays(args, f->Ok_0, "--ssh-key"@, text_at(tree, "ssh_key"@));
    lemma_option_stays(args, g->Ok_0, "--iso"@, text_at(tree, "iso"@));
    lemma_option_stays(args, h->Ok_0, "--vnc-port"@, port);
    lemma_option_stays(args, i->Ok_0, "--vnc-bind"@, text_at(tree, "vnc_bind"@));
    lemma_option_stays(args, j->Ok_0, "--vnc-width"@, width);
    lemma_option_stays(args, k->Ok_0, "--vnc-height"@, height);
    lemma_option_stays(args, m->Ok_0, "--cpus"@, cpus);
    lemma_option_stays(args, n->Ok_0, "--memory"@, text_at(tree, "memory"@));
    if cloud_init {
        assert(args[e->Ok_0.len() - 1] == "--cloud-init"@);
    }
    if tpm {
        assert(args[l->Ok_0.len() - 1] == "--tpm"@);
    }
    if start {
        assert(args[o->Ok_0.len() - 1] == "--start"@);
    }
    assert(args[0] == a->Ok_0[0] && args[1] == a->Ok_0[1] && args[2] == a->Ok_0[2]);
}

proof fn lemma_begin_chain(args: Seq<Seq<char>>, middle: Seq<Seq<char>>, first: Seq<Seq<char>>)
    requires
        begins_with(args, middle),
        begins_with(middle, first),
    ensures
        begins_with(args, first),
{
}

proof fn lemma_option_stays(
    args: Seq<Seq<char>>,
    first: Seq<Seq<char>>,
    option: Seq<char>,
    value: Option<Seq<char>>,
)
    requires
        begins_with(args, first),
        value matches Some(item) ==> has_option(first, option, item),
    ensures
        value matches Some(item) ==> has_option(args, option, item),
{
    if let Some(item) = value {
        lemma_option_kept(args, first, option, item);
    }
}

/// What contradicts itself is refused: a jail that is attached to but not started, and a
/// virtual machine that boots an image and an installation medium, or that has a key or is
/// attached to but boots no image.
pub proof fn law_contradictions_are_refused(args: Seq<Seq<char>>)
    requires
        args.len() > 1,
        args[0] == "create"@,
        ({
            let rest = args.skip(1);
            let cloud = rest.contains("--cloud-init"@);
            ||| args[1] == "jail"@ && rest.contains("--attach"@) && !rest.contains("--start"@)
            ||| args[1] == "vm"@ && cloud && rest.contains("--iso"@)
            ||| args[1] == "vm"@ && !cloud && (rest.contains("--ssh-key"@) || rest.contains(
                "--attach"@,
            ))
        }),
    ensures
        request_from_args_spec(args) is Err,
{
    lemma_create_names();
    lemma_kinds();
    assert(args.skip(1)[0] == args[1]);
}

} // verus!
