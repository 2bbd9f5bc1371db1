//! What is sent is what arrives: requests and answers can be written as bytes, and are read
//! back from them as they were.

use vstd::prelude::*;

use crate::daemon;
use crate::daemon::Listing;
use crate::jail::JailInfo;
use crate::protocol;
use crate::protocol::MESSAGE_LIMIT;
use crate::request;
use crate::text;
use crate::wire;
use crate::wire::{Tree, Value};

verus! {

// ---------------------------------------------------------------------------
// Names
// ---------------------------------------------------------------------------

/// Whether a name is short, and made of ASCII characters.
spec fn is_plain(name: Seq<char>) -> bool {
    name.len() < 100 && vstd::utf8::is_ascii_chars(name)
}

proof fn lemma_plain(name: Seq<char>)
    requires
        is_plain(name),
    ensures
        wire::is_field_name(name),
{
    vstd::utf8::is_ascii_chars_encode_utf8(name);
}

proof fn lemma_request_names()
    ensures
        wire::is_field_name("command"@),
        wire::is_field_name("type"@),
        wire::is_field_name("dataset"@),
        wire::is_field_name("volume"@),
        wire::is_field_name("size"@),
        wire::is_field_name("name"@),
        wire::is_field_name("resource"@),
        wire::is_field_name("attach"@),
        wire::is_field_name("dependencies"@),
{
    reveal_strlit("command");
    reveal_strlit("type");
    reveal_strlit("dataset");
    reveal_strlit("volume");
    reveal_strlit("size");
    reveal_strlit("name");
    reveal_strlit("resource");
    reveal_strlit("attach");
    reveal_strlit("dependencies");
    lemma_plain("command"@);
    lemma_plain("type"@);
    lemma_plain("dataset"@);
    lemma_plain("volume"@);
    lemma_plain("size"@);
    lemma_plain("name"@);
    lemma_plain("resource"@);
    lemma_plain("attach"@);
    lemma_plain("dependencies"@);
}

proof fn lemma_create_names()
    ensures
        wire::is_field_name("set"@),
        wire::is_field_name("base"@),
        wire::is_field_name("version"@),
        wire::is_field_name("ssh_key"@),
        wire::is_field_name("start"@),
        wire::is_field_name("disk"@),
        wire::is_field_name("os"@),
        wire::is_field_name("cloud_init"@),
        wire::is_field_name("iso"@),
        wire::is_field_name("tpm"@),
        wire::is_field_name("cpus"@),
        wire::is_field_name("memory"@),
{
    reveal_strlit("set");
    reveal_strlit("base");
    reveal_strlit("version");
    reveal_strlit("ssh_key");
    reveal_strlit("start");
    reveal_strlit("disk");
    reveal_strlit("os");
    reveal_strlit("cloud_init");
    reveal_strlit("iso");
    reveal_strlit("tpm");
    reveal_strlit("cpus");
    reveal_strlit("memory");
    lemma_plain("set"@);
    lemma_plain("base"@);
    lemma_plain("version"@);
    lemma_plain("ssh_key"@);
    lemma_plain("start"@);
    lemma_plain("disk"@);
    lemma_plain("os"@);
    lemma_plain("cloud_init"@);
    lemma_plain("iso"@);
    lemma_plain("tpm"@);
    lemma_plain("cpus"@);
    lemma_plain("memory"@);
}

proof fn lemma_other_names()
    ensures
        wire::is_field_name("vnc_port"@),
        wire::is_field_name("vnc_bind"@),
        wire::is_field_name("vnc_width"@),
        wire::is_field_name("vnc_height"@),
        wire::is_field_name("container"@),
        wire::is_field_name("develop"@),
        wire::is_field_name("service_dir"@),
        wire::is_field_name("provisioners"@),
{
    reveal_strlit("vnc_port");
    reveal_strlit("vnc_bind");
    reveal_strlit("vnc_width");
    reveal_strlit("vnc_height");
    reveal_strlit("container");
    reveal_strlit("develop");
    reveal_strlit("service_dir");
    reveal_strlit("provisioners");
    lemma_plain("vnc_port"@);
    lemma_plain("vnc_bind"@);
    lemma_plain("vnc_width"@);
    lemma_plain("vnc_height"@);
    lemma_plain("container"@);
    lemma_plain("develop"@);
    lemma_plain("service_dir"@);
    lemma_plain("provisioners"@);
}

proof fn lemma_response_names()
    ensures
        wire::is_field_name("status"@),
        wire::is_field_name("stdout"@),
        wire::is_field_name("stderr"@),
        wire::is_field_name("response"@),
        wire::is_field_name("event"@),
        wire::is_field_name("error"@),
        wire::is_field_name("detach"@),
        wire::is_field_name("message"@),
        wire::is_field_name("command"@),
{
    lemma_request_names();
    reveal_strlit("status");
    reveal_strlit("stdout");
    reveal_strlit("stderr");
    reveal_strlit("response");
    reveal_strlit("event");
    reveal_strlit("error");
    reveal_strlit("detach");
    reveal_strlit("message");
    lemma_plain("status"@);
    lemma_plain("stdout"@);
    lemma_plain("stderr"@);
    lemma_plain("response"@);
    lemma_plain("event"@);
    lemma_plain("error"@);
    lemma_plain("detach"@);
    lemma_plain("message"@);
}

proof fn lemma_row_names()
    ensures
        wire::is_field_name("name"@),
        wire::is_field_name("hostname"@),
        wire::is_field_name("ips"@),
        wire::is_field_name("status"@),
        wire::is_field_name("response"@),
        forall|listing: Listing| wire::is_field_name(#[trigger] daemon::listing_name(listing)),
{
    lemma_request_names();
    lemma_response_names();
    reveal_strlit("hostname");
    reveal_strlit("ips");
    reveal_strlit("datasets");
    reveal_strlit("volumes");
    reveal_strlit("jails");
    reveal_strlit("vms");
    lemma_plain("hostname"@);
    lemma_plain("ips"@);
    lemma_plain("datasets"@);
    lemma_plain("volumes"@);
    lemma_plain("jails"@);
    lemma_plain("vms"@);
}

// ---------------------------------------------------------------------------
// Requests
// ---------------------------------------------------------------------------

/// Whether a value is neither a tree nor a list of trees.
spec fn is_simple(value: Value) -> bool {
    value is Flag || value is Number || value is Text || value is Texts
}

/// Whether a draft has fields that hold no trees.
spec fn is_flat(draft: Result<Tree, Seq<char>>) -> bool {
    draft matches Ok(tree) ==> tree.flags == 0 && forall|name: Seq<char>| #[trigger]
        tree.fields.dom().contains(name) ==> wire::is_field_name(name) && is_simple(
            tree.fields[name],
        )
}

proof fn lemma_draft()
    ensures
        forall|draft: Result<Tree, Seq<char>>, name: Seq<char>, value: Result<Seq<char>, Seq<char>>|
            is_flat(draft) && wire::is_field_name(name) ==> is_flat(
                #[trigger] request::with_text(draft, name, value),
            ),
        forall|
            draft: Result<Tree, Seq<char>>,
            name: Seq<char>,
            value: Result<Option<Seq<char>>, Seq<char>>,
        |
            is_flat(draft) && wire::is_field_name(name) ==> is_flat(
                #[trigger] request::with_optional_text(draft, name, value),
            ),
        forall|draft: Result<Tree, Seq<char>>, name: Seq<char>, value: Result<u64, Seq<char>>|
            is_flat(draft) && wire::is_field_name(name) ==> is_flat(
                #[trigger] request::with_number(draft, name, value),
            ),
        forall|
            draft: Result<Tree, Seq<char>>,
            name: Seq<char>,
            value: Result<Option<u64>, Seq<char>>,
        |
            is_flat(draft) && wire::is_field_name(name) ==> is_flat(
                #[trigger] request::with_optional_number(draft, name, value),
            ),
        forall|draft: Result<Tree, Seq<char>>, name: Seq<char>, value: bool|
            is_flat(draft) && wire::is_field_name(name) ==> is_flat(
                #[trigger] request::with_flag(draft, name, value),
            ),
        forall|draft: Result<Tree, Seq<char>>, name: Seq<char>, value: Seq<Seq<char>>|
            is_flat(draft) && wire::is_field_name(name) ==> is_flat(
                #[trigger] request::with_texts(draft, name, value),
            ),
        forall|draft: Result<Tree, Seq<char>>, failure: Option<Seq<char>>|
            is_flat(draft) ==> is_flat(#[trigger] request::unless(draft, failure)),
{
    assert forall|tree: Tree, name: Seq<char>, value: Value|
        is_flat(Ok(tree)) && wire::is_field_name(name) && is_simple(value) implies is_flat(
        Ok(#[trigger] wire::put(tree, name, value)),
    ) by {
        let longer = wire::put(tree, name, value);
        assert forall|other: Seq<char>| #[trigger]
            longer.fields.dom().contains(other) implies wire::is_field_name(other) && is_simple(
            longer.fields[other],
        ) by {
            if other != name {
                assert(tree.fields.dom().contains(other));
            }
        }
    }
}

proof fn lemma_create_is_flat(draft: Result<Tree, Seq<char>>, args: Seq<Seq<char>>)
    requires
        is_flat(draft),
    ensures
        is_flat(request::create_request(draft, args)),
{
    lemma_request_names();
    lemma_create_names();
    lemma_other_names();
    lemma_draft();
}

proof fn lemma_service_is_flat(
    draft: Result<Tree, Seq<char>>,
    command: Seq<char>,
    args: Seq<Seq<char>>,
)
    requires
        is_flat(draft),
    ensures
        is_flat(request::service_request(draft, command, args)),
{
    lemma_request_names();
    lemma_other_names();
    lemma_draft();
}

proof fn lemma_request_is_flat(args: Seq<Seq<char>>)
    ensures
        is_flat(request::request_from_args_spec(args)),
{
    if args.len() > 0 {
        let rest = args.skip(1);
        let start: Result<Tree, Seq<char>> = Ok(wire::empty_tree());
        assert(is_flat(start));
        lemma_request_names();
        lemma_draft();
        let draft = request::with_text(start, "command"@, Ok(args[0]));
        lemma_create_is_flat(draft, rest);
        lemma_service_is_flat(draft, args[0], rest);
    }
}

/// Whether no text in a list of a tree holds a NUL, which would end it early.
pub open spec fn lists_are_writable(tree: Tree) -> bool {
    forall|name: Seq<char>, list: Seq<Seq<char>>, i: int|
        #[trigger] wire::get(tree, name) == Some(Value::Texts(list)) && 0 <= i < list.len()
            ==> wire::is_writable(#[trigger] list[i])
}

proof fn lemma_listed_texts(list: Seq<Seq<char>>, depth: nat)
    ensures
        wire::packs_value(Value::Texts(list), depth) <==> forall|i: int|
            0 <= i < list.len() ==> wire::is_writable(#[trigger] list[i]),
{
    let value = Value::Texts(list);
    if wire::packs_value(value, depth) {
        assert forall|i: int| 0 <= i < list.len() implies wire::is_writable(#[trigger] list[i]) by {
            assert(wire::is_writable(value->Texts_0[i]));
        }
    }
}

proof fn lemma_flat_packs(tree: Tree)
    requires
        is_flat(Ok(tree)),
    ensures
        wire::is_packable(tree) <==> lists_are_writable(tree),
{
    if lists_are_writable(tree) {
        assert forall|name: Seq<char>| #[trigger]
            tree.fields.dom().contains(name) implies wire::packs_value(
            tree.fields[name],
            256,
        ) by {
            if let Value::Texts(list) = tree.fields[name] {
                assert(wire::get(tree, name) == Some(Value::Texts(list)));
                lemma_listed_texts(list, 256);
            }
        }
    }
    if wire::is_packable(tree) {
        assert forall|name: Seq<char>, list: Seq<Seq<char>>, i: int|
            #[trigger] wire::get(tree, name) == Some(Value::Texts(list)) && 0 <= i
                < list.len() implies wire::is_writable(#[trigger] list[i]) by {
            assert(tree.fields.dom().contains(name));
            lemma_listed_texts(list, 256);
        }
    }
}

/// The request that arguments mean can be written as bytes that give it back, but where a
/// text in a list holds a NUL.
pub proof fn law_requests_can_be_sent(args: Seq<Seq<char>>)
    ensures
        request::request_from_args_spec(args) matches Ok(tree) ==> (wire::is_packable(tree)
            <==> lists_are_writable(tree)),
{
    let draft = request::request_from_args_spec(args);
    assert(is_flat(draft)) by {
        lemma_request_is_flat(args);
    }
    if draft is Ok {
        lemma_flat_packs(draft->Ok_0);
    }
}

/// The daemon takes up the request that the client's arguments mean: whatever bytes the
/// client writes for it, the daemon finds their length in front of them, and reads the same
/// request from them, which it accepts.
pub proof fn law_request_arrives(args: Seq<Seq<char>>, tree: Tree, bytes: Seq<u8>)
    requires
        request::request_from_args_spec(args) == Ok::<Tree, Seq<char>>(tree),
        lists_are_writable(tree),
        wire::is_written(bytes, tree),
        wire::packed_length(tree) <= MESSAGE_LIMIT,
    ensures
        protocol::length_spec(protocol::frame_spec(bytes).take(4)) == Ok::<int, Seq<char>>(
            bytes.len() as int,
        ),
        forall|message: Result<Tree, Seq<char>>| #[trigger]
            protocol::may_be_received(protocol::frame_spec(bytes).skip(4), message)
                ==> protocol::accepted(message) == Ok::<Tree, Seq<char>>(tree),
{
    law_requests_can_be_sent(args);
    request::law_requests_carry_supported_commands(args);
    protocol::law_message_arrives(tree, bytes);
}

// ---------------------------------------------------------------------------
// Answers and events
// ---------------------------------------------------------------------------

proof fn lemma_single(name: Seq<char>, value: Value, depth: nat)
    requires
        wire::is_field_name(name),
        wire::packs_value(value, depth),
    ensures
        wire::packs(protocol::single(name, value), depth),
{
    assert(wire::packs(wire::empty_tree(), depth));
    wire::lemma_put_packs(wire::empty_tree(), depth, name, value);
}

/// Every answer to a request can be written as bytes that give it back.
pub proof fn law_answers_can_be_sent(
    status: int,
    stdout: Seq<u8>,
    stderr: Seq<u8>,
    message: Seq<char>,
)
    ensures
        wire::is_packable(protocol::success_spec(status, stdout, stderr)),
        wire::is_packable(protocol::error_spec(message)),
{
    lemma_response_names();
    let code = Value::Number(
        if status < 0 {
            0
        } else {
            status as u64
        },
    );
    lemma_single("status"@, code, 255);
    let first = protocol::single("status"@, code);
    wire::lemma_put_packs(first, 255, "stdout"@, Value::Text(text::lossy_spec(stdout)));
    let second = wire::put(first, "stdout"@, Value::Text(text::lossy_spec(stdout)));
    wire::lemma_put_packs(second, 255, "stderr"@, Value::Text(text::lossy_spec(stderr)));
    let third = wire::put(second, "stderr"@, Value::Text(text::lossy_spec(stderr)));
    lemma_single("response"@, Value::Nested(third), 256);
    lemma_single("error"@, Value::Text(message), 256);
}

proof fn lemma_rows(listing: Listing, rows: Seq<Tree>)
    requires
        forall|i: int| 0 <= i < rows.len() ==> wire::packs(#[trigger] rows[i], 254),
    ensures
        wire::is_packable(protocol::rows_spec(daemon::listing_name(listing), rows)),
{
    lemma_row_names();
    let name = daemon::listing_name(listing);
    lemma_single(name, Value::NestedList(rows), 255);
    lemma_single(
        "response"@,
        Value::Nested(protocol::single(name, Value::NestedList(rows))),
        256,
    );
}

/// Every list of resources can be written as bytes that give it back.
pub proof fn law_listings_can_be_sent(
    listing: Listing,
    names: Seq<Seq<char>>,
    jails: Seq<JailInfo>,
    vms: Seq<(String, bool)>,
)
    ensures
        wire::is_packable(
            protocol::rows_spec(
                daemon::listing_name(listing),
                names.map_values(|name: Seq<char>| daemon::name_row(name)),
            ),
        ),
        wire::is_packable(
            protocol::rows_spec(
                daemon::listing_name(listing),
                jails.map_values(|info: JailInfo| daemon::jail_row(info)),
            ),
        ),
        wire::is_packable(
            protocol::rows_spec(
                daemon::listing_name(listing),
                vms.map_values(|vm: (String, bool)| daemon::vm_row(vm)),
            ),
        ),
{
    lemma_row_names();
    assert forall|name: Seq<char>| wire::packs(#[trigger] daemon::name_row(name), 254) by {
        lemma_single("name"@, Value::Text(name), 254);
    }
    lemma_rows(listing, names.map_values(|name: Seq<char>| daemon::name_row(name)));
    assert forall|info: JailInfo| wire::packs(#[trigger] daemon::jail_row(info), 254) by {
        let named = daemon::name_row(info.name@);
        wire::lemma_put_packs(named, 254, "hostname"@, Value::Text(info.hostname@));
        let hosted = wire::put(named, "hostname"@, Value::Text(info.hostname@));
        wire::lemma_put_packs(hosted, 254, "ips"@, Value::Text(info.ips@));
        let addressed = wire::put(hosted, "ips"@, Value::Text(info.ips@));
        wire::lemma_put_packs(addressed, 254, "status"@, Value::Text(info.status@));
    }
    lemma_rows(listing, jails.map_values(|info: JailInfo| daemon::jail_row(info)));
    assert forall|vm: (String, bool)| wire::packs(#[trigger] daemon::vm_row(vm), 254) by {
        wire::lemma_put_packs(
            daemon::name_row(vm.0@),
            254,
            "status"@,
            Value::Text(daemon::status_spec(vm.1)),
        );
    }
    lemma_rows(listing, vms.map_values(|vm: (String, bool)| daemon::vm_row(vm)));
}

proof fn lemma_output(tree: Tree, name: Seq<char>, bytes: Option<Seq<u8>>)
    requires
        wire::packs(tree, 255),
        wire::is_field_name(name),
    ensures
        wire::packs(protocol::with_bytes(tree, name, bytes), 255),
{
    if let Some(bytes) = bytes {
        wire::lemma_put_packs(tree, 255, name, Value::Text(text::lossy_spec(bytes)));
    }
}

/// Whatever happens meanwhile can be told in bytes that give it back.
pub proof fn law_events_can_be_sent(
    command: Seq<char>,
    stdout: Option<Seq<u8>>,
    stderr: Option<Seq<u8>>,
    allows_detach: bool,
)
    ensures
        wire::is_packable(protocol::event_spec(command, stdout, stderr, allows_detach)),
        wire::is_packable(protocol::message_spec(command)),
{
    lemma_response_names();
    let start = wire::empty_tree();
    assert(wire::packs(start, 255));
    wire::lemma_put_packs(start, 255, "command"@, Value::Text(command));
    let named = if command.len() > 0 {
        wire::put(start, "command"@, Value::Text(command))
    } else {
        start
    };
    lemma_output(named, "stdout"@, stdout);
    let first = protocol::with_bytes(named, "stdout"@, stdout);
    lemma_output(first, "stderr"@, stderr);
    let second = protocol::with_bytes(first, "stderr"@, stderr);
    wire::lemma_put_packs(second, 255, "detach"@, Value::Flag(true));
    let third = if allows_detach {
        wire::put(second, "detach"@, Value::Flag(true))
    } else {
        second
    };
    lemma_single("event"@, Value::Nested(third), 256);
    lemma_single("message"@, Value::Text(command), 255);
    lemma_single(
        "event"@,
        Value::Nested(protocol::single("message"@, Value::Text(command))),
        256,
    );
}

} // verus!
