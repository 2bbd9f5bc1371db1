//! The protocol between client and daemon: requests, responses, events and how
//! they are framed.

use nvtree::Nvtree;
use vstd::prelude::*;

use crate::error;
use crate::error::{caused, Error};
use crate::extent;
use crate::extent::measured;
use crate::request;
use crate::request::{is_supported, optional_string};
use crate::text;
use crate::text::{lossy, owned, same};
use crate::wire;
use crate::wire::{find, nested, nested_list, pack, unpack, Found, Tree, Value};

pub use crate::request::{request_from_args, request_to_args};

verus! {

pub const SOCKET_BASE: &'static str = "/var/run/priosun";

pub const SOCKET_PATH: &'static str = "/var/run/priosun/socket";

/// A kind of resource that can be listed.
#[derive(Debug, Clone, Copy)]
pub enum Resource {
    Dataset,
    Volume,
    Vm,
    Jail,
    All,
}

// ---------------------------------------------------------------------------
// Framing
// ---------------------------------------------------------------------------

/// The most bytes that a message may have when it is read.
pub const MESSAGE_LIMIT: u32 = 16777216;

/// The number that four bytes give, the highest first.
pub open spec fn big_endian(bytes: Seq<u8>) -> int {
    bytes[0] * 16777216 + bytes[1] * 65536 + bytes[2] * 256 + bytes[3]
}

/// The four bytes of a number, the highest first.
pub open spec fn big_endian_bytes(n: int) -> Seq<u8> {
    seq![
        (n / 16777216 % 256) as u8,
        (n / 65536 % 256) as u8,
        (n / 256 % 256) as u8,
        (n % 256) as u8,
    ]
}

/// A message as it is sent: its length in four bytes, then its bytes.
pub open spec fn frame_spec(data: Seq<u8>) -> Seq<u8> {
    big_endian_bytes(data.len() as int) + data
}

pub open spec fn too_large_message() -> Seq<char> {
    error::with_cause("message is too large"@, "out of range integral type conversion attempted"@)
}

/// Frames a message for sending. It must be shorter than four gigabytes.
pub fn write_message(data: &[u8]) -> (result: Result<Vec<u8>, Error>)
    ensures
        match result {
            Ok(frame) => data@.len() <= u32::MAX && frame@ == frame_spec(data@),
            Err(error) => data@.len() > u32::MAX && error@ == too_large_message(),
        },
{
    let length: usize = data.len();
    if length > 4294967295 {
        return Err(
            caused(
                owned("message is too large"),
                "out of range integral type conversion attempted",
            ),
        );
    }
    let mut frame: Vec<u8> = Vec::new();
    frame.push((length / 16777216 % 256) as u8);
    frame.push((length / 65536 % 256) as u8);
    frame.push((length / 256 % 256) as u8);
    frame.push((length % 256) as u8);
    let mut index: usize = 0;
    while index < data.len()
        invariant
            index <= data@.len(),
            frame@ == big_endian_bytes(data@.len() as int) + data@.take(index as int),
        decreases data@.len() - index,
    {
        frame.push(data[index]);
        proof {
            assert(frame@ =~= big_endian_bytes(data@.len() as int) + data@.take(index + 1));
        }
        index += 1;
    }
    proof {
        assert(data@.take(index as int) =~= data@);
    }
    Ok(frame)
}

/// The length of the message that follows, read from the four bytes before it.
pub open spec fn length_spec(header: Seq<u8>) -> Result<int, Seq<char>> {
    if big_endian(header) > MESSAGE_LIMIT {
        Err("message is too large"@)
    } else {
        Ok(big_endian(header))
    }
}

/// Reads the length of the message that follows these four bytes.
pub fn read_message(header: [u8; 4]) -> (result: Result<usize, Error>)
    ensures
        match result {
            Ok(length) => length_spec(header@) == Ok::<int, Seq<char>>(length as int),
            Err(error) => length_spec(header@) == Err::<int, Seq<char>>(error@),
        },
{
    let length: u32 = header[0] as u32 * 16777216 + header[1] as u32 * 65536 + header[2] as u32
        * 256 + header[3] as u32;
    if length > MESSAGE_LIMIT {
        return Err(Error::new(owned("message is too large")));
    }
    Ok(length as usize)
}

/// What is framed is read back: the four bytes in front give the length of what
/// follows them, and that is the message.
pub proof fn law_frame_reads_back(data: Seq<u8>)
    requires
        data.len() <= MESSAGE_LIMIT,
    ensures
        frame_spec(data).len() == data.len() + 4,
        length_spec(frame_spec(data).take(4)) == Ok::<int, Seq<char>>(data.len() as int),
        frame_spec(data).skip(4) == data,
{
    let n = data.len() as int;
    let header = frame_spec(data).take(4);
    assert(header =~= big_endian_bytes(n));
    assert(n / 16777216 % 256 * 16777216 + n / 65536 % 256 * 65536 + n / 256 % 256 * 256 + n % 256
        == n) by (nonlinear_arith)
        requires
            0 <= n <= 16777216,
    ;
    assert(frame_spec(data).skip(4) =~= data);
}

/// Whether this can come of the bytes of a message: their tree, or why there is none. Where
/// the reader of messages refuses them, the system may still find a tree in them.
pub open spec fn may_be_received(bytes: Seq<u8>, result: Result<Tree, Seq<char>>) -> bool {
    if !extent::is_measured(bytes) {
        result == Err::<Tree, Seq<char>>("invalid nvtree message: Malformed"@)
    } else {
        match wire::unpacked(bytes) {
            Ok(tree) => result == Ok::<Tree, Seq<char>>(tree),
            Err(reason) => result is Ok || result == Err::<Tree, Seq<char>>(
                "invalid nvtree message: "@ + reason,
            ),
        }
    }
}

/// Reads the tree of a message.
pub fn receive_message(bytes: &[u8]) -> (result: Result<Nvtree, Error>)
    ensures
        may_be_received(bytes@, request::tree_result(result)),
{
    if !measured(bytes) {
        return Err(Error::new(owned("invalid nvtree message: Malformed")));
    }
    match unpack(bytes) {
        Ok(tree) => Ok(tree),
        Err(reason) => Err(Error::new(owned("invalid nvtree message: ").concat(reason.as_str()))),
    }
}

/// The frame of a message. One of four gigabytes or more is refused.
pub fn send_message(message: &Nvtree) -> (result: Result<Vec<u8>, Error>)
    ensures
        match result {
            Ok(frame) => exists|bytes: Seq<u8>|
                frame@ == #[trigger] frame_spec(bytes) && wire::is_written(
                    bytes,
                    wire::content(*message),
                ),
            Err(error) => error@ == too_large_message(),
        },
        wire::is_packable(wire::content(*message)) ==> (result is Ok <==> wire::packed_length(
            wire::content(*message),
        ) <= u32::MAX),
{
    let bytes = pack(message);
    write_message(bytes.as_slice())
}

/// A message that was sent arrives as it was: whatever bytes its frame holds, the
/// receiver finds their length, takes them out and reads the same tree.
pub proof fn law_message_arrives(tree: Tree, bytes: Seq<u8>)
    requires
        wire::is_packable(tree),
        wire::is_written(bytes, tree),
        wire::packed_length(tree) <= MESSAGE_LIMIT,
    ensures
        length_spec(frame_spec(bytes).take(4)) == Ok::<int, Seq<char>>(bytes.len() as int),
        forall|result: Result<Tree, Seq<char>>| #[trigger]
            may_be_received(frame_spec(bytes).skip(4), result) ==> result == Ok::<Tree, Seq<char>>(
                tree,
            ),
{
    law_frame_reads_back(bytes);
}

// ---------------------------------------------------------------------------
// Requests at the daemon's door
// ---------------------------------------------------------------------------

/// Why a request is turned away, if it is.
pub open spec fn refused_request(request: Tree) -> Option<Seq<char>> {
    match request::text_at(request, "command"@) {
        None => Some("request is missing command"@),
        Some(command) => if request::supported_commands().contains(command) {
            None
        } else {
            Some("unsupported command: "@ + command)
        },
    }
}

/// Takes a request whose command is supported, and no other.
pub fn accept_request(request: Nvtree) -> (result: Result<Nvtree, Error>)
    ensures
        match result {
            Ok(accepted) => accepted == request && refused_request(wire::content(request)) is None,
            Err(error) => refused_request(wire::content(request)) == Some(error@),
        },
{
    match optional_string(&request, "command") {
        None => Err(Error::new(owned("request is missing command"))),
        Some(command) => if is_supported(command.as_str()) {
            Ok(request)
        } else {
            Err(Error::new(owned("unsupported command: ").concat(command.as_str())))
        },
    }
}

/// What a message gives as a request.
pub open spec fn accepted(message: Result<Tree, Seq<char>>) -> Result<Tree, Seq<char>> {
    match message {
        Err(error) => Err(error),
        Ok(tree) => match refused_request(tree) {
            Some(error) => Err(error),
            None => Ok(tree),
        },
    }
}

/// Reads a request whose command is supported.
pub fn receive_request(bytes: &[u8]) -> (result: Result<Nvtree, Error>)
    ensures
        exists|message: Result<Tree, Seq<char>>| #[trigger]
            may_be_received(bytes@, message) && request::tree_result(result) == accepted(message),
{
    let message = receive_message(bytes);
    let ghost received = request::tree_result(message);
    assert(may_be_received(bytes@, received));
    match message {
        Err(error) => Err(error),
        Ok(request) => accept_request(request),
    }
}

// ---------------------------------------------------------------------------
// Responses and events
// ---------------------------------------------------------------------------

/// The tree with one field.
pub open spec fn single(name: Seq<char>, value: Value) -> Tree {
    wire::put(wire::empty_tree(), name, value)
}

fn envelope(name: &str, payload: Nvtree) -> (tree: Nvtree)
    ensures
        wire::content(tree) == single(name@, Value::Nested(wire::content(payload))),
{
    let mut tree = nvtree::nvtree_create(0);
    let _ = nvtree::nvtree_add(&mut tree, nested(name, payload));
    tree
}

/// A tree with a text added, where there are bytes for it.
pub open spec fn with_bytes(tree: Tree, name: Seq<char>, bytes: Option<Seq<u8>>) -> Tree {
    match bytes {
        Some(bytes) => wire::put(tree, name, Value::Text(text::lossy_spec(bytes))),
        None => tree,
    }
}

spec fn bytes_view(bytes: Option<&[u8]>) -> Option<Seq<u8>> {
    match bytes {
        Some(bytes) => Some(bytes@),
        None => None,
    }
}

/// What happened while a command ran.
pub open spec fn event_spec(
    command: Seq<char>,
    stdout: Option<Seq<u8>>,
    stderr: Option<Seq<u8>>,
    allows_detach: bool,
) -> Tree {
    let event = wire::empty_tree();
    let event = if command.len() > 0 {
        wire::put(event, "command"@, Value::Text(command))
    } else {
        event
    };
    let event = with_bytes(event, "stdout"@, stdout);
    let event = with_bytes(event, "stderr"@, stderr);
    let event = if allows_detach {
        wire::put(event, "detach"@, Value::Flag(true))
    } else {
        event
    };
    single("event"@, Value::Nested(event))
}

fn command_event_internal(
    command: &str,
    stdout: Option<&[u8]>,
    stderr: Option<&[u8]>,
    allows_detach: bool,
) -> (tree: Nvtree)
    ensures
        wire::content(tree) == event_spec(
            command@,
            bytes_view(stdout),
            bytes_view(stderr),
            allows_detach,
        ),
{
    let mut event = nvtree::nvtree_create(0);
    if !command.is_empty() {
        let _ = nvtree::nvtree_add(&mut event, nvtree::nvtree_string("command", command));
    }
    if let Some(bytes) = stdout {
        let output = lossy(bytes);
        let _ = nvtree::nvtree_add(&mut event, nvtree::nvtree_string("stdout", output.as_str()));
    }
    if let Some(bytes) = stderr {
        let output = lossy(bytes);
        let _ = nvtree::nvtree_add(&mut event, nvtree::nvtree_string("stderr", output.as_str()));
    }
    if allows_detach {
        let _ = nvtree::nvtree_add(&mut event, nvtree::nvtree_bool("detach", true));
    }
    envelope("event", event)
}

/// The event of a command being run, or of its output.
pub fn command_event(command: &str, stdout: Option<&[u8]>, stderr: Option<&[u8]>) -> (tree: Nvtree)
    ensures
        wire::content(tree) == event_spec(
            command@,
            match stdout {
                Some(bytes) => Some(bytes@),
                None => None,
            },
            match stderr {
                Some(bytes) => Some(bytes@),
                None => None,
            },
            false,
        ),
{
    command_event_internal(command, stdout, stderr, false)
}

/// The event of a serial console being opened, from which a client may detach.
pub fn serial_console_event() -> (tree: Nvtree)
    ensures
        wire::content(tree) == event_spec("serial console"@, None, None, true),
{
    command_event_internal("serial console", None, None, true)
}

/// A message for the user.
pub open spec fn message_spec(message: Seq<char>) -> Tree {
    single("event"@, Value::Nested(single("message"@, Value::Text(message))))
}

/// The event of a message for the user.
pub fn message_event(message: &str) -> (tree: Nvtree)
    ensures
        wire::content(tree) == message_spec(message@),
{
    let mut event = nvtree::nvtree_create(0);
    let _ = nvtree::nvtree_add(&mut event, nvtree::nvtree_string("message", message));
    envelope("event", event)
}

/// The response to a request that was carried out. A negative status counts as zero.
pub open spec fn success_spec(status: int, stdout: Seq<u8>, stderr: Seq<u8>) -> Tree {
    let payload = single(
        "status"@,
        Value::Number(
            if status < 0 {
                0
            } else {
                status as u64
            },
        ),
    );
    let payload = with_bytes(payload, "stdout"@, Some(stdout));
    let payload = with_bytes(payload, "stderr"@, Some(stderr));
    single("response"@, Value::Nested(payload))
}

/// The response to a request that was carried out.
pub fn success(status: i32, stdout: &[u8], stderr: &[u8]) -> (tree: Nvtree)
    ensures
        wire::content(tree) == success_spec(status as int, stdout@, stderr@),
{
    let mut payload = nvtree::nvtree_create(0);
    let code: u64 = if status < 0 {
        0
    } else {
        status as u64
    };
    let _ = nvtree::nvtree_add(&mut payload, nvtree::nvtree_number("status", code));
    let output = lossy(stdout);
    let _ = nvtree::nvtree_add(&mut payload, nvtree::nvtree_string("stdout", output.as_str()));
    let output = lossy(stderr);
    let _ = nvtree::nvtree_add(&mut payload, nvtree::nvtree_string("stderr", output.as_str()));
    envelope("response", payload)
}

/// The response that lists resources.
pub open spec fn rows_spec(resource: Seq<char>, rows: Seq<Tree>) -> Tree {
    single("response"@, Value::Nested(single(resource, Value::NestedList(rows))))
}

fn structured_success(resource: &str, rows: Vec<Nvtree>) -> (tree: Nvtree)
    ensures
        wire::content(tree) == rows_spec(resource@, wire::contents(rows@)),
{
    let mut payload = nvtree::nvtree_create(0);
    let _ = nvtree::nvtree_add(&mut payload, nested_list(resource, rows));
    envelope("response", payload)
}

/// The response that lists jails.
pub fn jails_success(jails: Vec<Nvtree>) -> (tree: Nvtree)
    ensures
        wire::content(tree) == rows_spec("jails"@, wire::contents(jails@)),
{
    structured_success("jails", jails)
}

/// The response that lists datasets.
pub fn datasets_success(datasets: Vec<Nvtree>) -> (tree: Nvtree)
    ensures
        wire::content(tree) == rows_spec("datasets"@, wire::contents(datasets@)),
{
    structured_success("datasets", datasets)
}

/// The response that lists volumes.
pub fn volumes_success(volumes: Vec<Nvtree>) -> (tree: Nvtree)
    ensures
        wire::content(tree) == rows_spec("volumes"@, wire::contents(volumes@)),
{
    structured_success("volumes", volumes)
}

/// The response that lists virtual machines.
pub fn vms_success(vms: Vec<Nvtree>) -> (tree: Nvtree)
    ensures
        wire::content(tree) == rows_spec("vms"@, wire::contents(vms@)),
{
    structured_success("vms", vms)
}

/// The response to a request that failed.
pub open spec fn error_spec(message: Seq<char>) -> Tree {
    single("error"@, Value::Text(message))
}

/// The response to a request that failed.
pub fn error(message: &str) -> (tree: Nvtree)
    ensures
        wire::content(tree) == error_spec(message@),
{
    let mut tree = nvtree::nvtree_create(0);
    let _ = nvtree::nvtree_add(&mut tree, nvtree::nvtree_string("error", message));
    tree
}

/// Whether a tree is a response that failed: it has an `error`, and no `response`
/// or `event`.
pub open spec fn is_error(tree: Tree) -> bool {
    &&& wire::get(tree, "error"@) is Some
    &&& wire::get(tree, "response"@) is None
    &&& wire::get(tree, "event"@) is None
}

/// Whether a tree is a response that succeeded: it has a `response`, and no `error`
/// or `event`.
pub open spec fn is_response(tree: Tree) -> bool {
    &&& wire::get(tree, "response"@) is Some
    &&& wire::get(tree, "error"@) is None
    &&& wire::get(tree, "event"@) is None
}

/// Whether a tree is an event, which is no response yet.
pub open spec fn is_event(tree: Tree) -> bool {
    &&& wire::get(tree, "event"@) is Some
    &&& wire::get(tree, "error"@) is None
    &&& wire::get(tree, "response"@) is None
}

proof fn lemma_single(name: Seq<char>, value: Value)
    ensures
        wire::get(single(name, value), name) == Some(value),
        forall|other: Seq<char>|
            other != name ==> (#[trigger] wire::get(single(name, value), other)) is None,
{
    wire::law_put_get(wire::empty_tree(), name, value, name);
    assert forall|other: Seq<char>| other != name implies (#[trigger] wire::get(
        single(name, value),
        other,
    )) is None by {
        wire::law_put_get(wire::empty_tree(), name, value, other);
    }
}

proof fn lemma_envelope_names()
    ensures
        "error"@ != "response"@,
        "error"@ != "event"@,
        "response"@ != "event"@,
{
    reveal_strlit("error");
    reveal_strlit("response");
    reveal_strlit("event");
    assert("error"@[1] == 'r' && "event"@[1] == 'v');
    assert("error"@.len() == 5 && "response"@.len() == 8 && "event"@.len() == 5);
}

/// Every response has either an `error` or a `response` field and never both, and
/// no event has either.
pub proof fn law_responses_are_told_apart(
    status: int,
    stdout: Seq<u8>,
    stderr: Seq<u8>,
    resource: Seq<char>,
    rows: Seq<Tree>,
    message: Seq<char>,
    command: Seq<char>,
    output: Option<Seq<u8>>,
    errors: Option<Seq<u8>>,
    detach: bool,
)
    ensures
        is_response(success_spec(status, stdout, stderr)),
        is_response(rows_spec(resource, rows)),
        is_error(error_spec(message)),
        is_event(message_spec(message)),
        is_event(event_spec(command, output, errors, detach)),
{
    lemma_envelope_names();
    assert forall|value: Value| is_response(#[trigger] single("response"@, value)) by {
        lemma_single("response"@, value);
    }
    assert forall|value: Value| is_event(#[trigger] single("event"@, value)) by {
        lemma_single("event"@, value);
    }
    lemma_single("error"@, Value::Text(message));
}

// ---------------------------------------------------------------------------
// The client
// ---------------------------------------------------------------------------

/// A client of the daemon behind a socket.
pub struct Client {
    pub socket: String,
}

/// How a kind of resource is called in a request.
pub open spec fn resource_name(resource: Resource) -> Seq<char> {
    match resource {
        Resource::Dataset => "datasets"@,
        Resource::Volume => "volumes"@,
        Resource::Vm => "vms"@,
        Resource::Jail => "jails"@,
        Resource::All => "all"@,
    }
}

/// The request that lists resources.
pub open spec fn list_spec(resource: Seq<char>) -> Tree {
    wire::put(single("command"@, Value::Text("list"@)), "resource"@, Value::Text(resource))
}

impl Client {
    /// A client of the daemon behind this socket.
    pub fn new(path: &str) -> (client: Client)
        ensures
            client.socket@ == path@,
    {
        Client { socket: owned(path) }
    }

    /// The request that lists resources of a kind.
    pub fn list(&self, resource: Resource) -> (request: Nvtree)
        ensures
            wire::content(request) == list_spec(resource_name(resource)),
    {
        let name = match resource {
            Resource::Dataset => "datasets",
            Resource::Volume => "volumes",
            Resource::Vm => "vms",
            Resource::Jail => "jails",
            Resource::All => "all",
        };
        let mut request = nvtree::nvtree_create(0);
        let _ = nvtree::nvtree_add(&mut request, nvtree::nvtree_string("command", "list"));
        let _ = nvtree::nvtree_add(&mut request, nvtree::nvtree_string("resource", name));
        request
    }
}

impl Default for Client {
    /// A client of the daemon behind the usual socket.
    fn default() -> (client: Client)
        ensures
            client.socket@ == SOCKET_PATH@,
    {
        Client::new(SOCKET_PATH)
    }
}

/// A client's side of one request, from the moment that it is sent.
pub struct Session {
    pub interactive: bool,
}

/// Whether a request ties the user's terminal to the daemon.
pub open spec fn is_interactive(request: Tree) -> bool {
    let command = request::text_at(request, "command"@);
    ||| command == Some("attach"@)
    ||| command == Some("start"@) && request::flag_at(request, "attach"@) == Some(true)
}

/// The command of a request, as it is named in an error.
pub open spec fn named_command(request: Tree) -> Seq<char> {
    match request::text_at(request, "command"@) {
        Some(command) => command,
        None => "unknown"@,
    }
}

impl Session {
    /// Begins a session for a request, which must have a supported command.
    pub fn open(request: &Nvtree) -> (result: Result<Session, Error>)
        ensures
            match result {
                Ok(session) => {
                    &&& request::supported_commands().contains(
                        named_command(wire::content(*request)),
                    )
                    &&& session.interactive == is_interactive(wire::content(*request))
                },
                Err(error) => {
                    &&& !request::supported_commands().contains(
                        named_command(wire::content(*request)),
                    )
                    &&& error@ == "unsupported command: "@ + named_command(wire::content(*request))
                },
            },
    {
        let command = match optional_string(request, "command") {
            Some(command) => command,
            None => owned("unknown"),
        };
        let name = command.as_str();
        proof {
            reveal_strlit("unknown");
            reveal_strlit("attach");
            reveal_strlit("start");
            assert("unknown"@.len() == 7 && "attach"@.len() == 6 && "start"@.len() == 5);
        }
        if !is_supported(name) {
            return Err(Error::new(owned("unsupported command: ").concat(name)));
        }
        let attach = match request::optional_bool(request, "attach") {
            Some(attach) => attach,
            None => false,
        };
        Ok(Session { interactive: same(name, "attach") || (same(name, "start") && attach) })
    }
}

/// The byte that Ctrl-] sends, which detaches a client.
pub const DETACH_BYTE: u8 = 0x1d;

/// The place of the first detach byte at or behind `from`; the number of bytes if
/// there is none.
pub open spec fn detach_place(bytes: Seq<u8>, from: int) -> int
    decreases bytes.len() - from,
{
    if from < 0 || from >= bytes.len() {
        bytes.len() as int
    } else if bytes[from] == DETACH_BYTE {
        from
    } else {
        detach_place(bytes, from + 1)
    }
}

/// What a client does with what the user typed.
pub struct Input {
    /// What is sent to the daemon, if anything.
    pub message: Option<Nvtree>,
    /// Whether the client detaches.
    pub detach: bool,
    /// Whether nothing more is read.
    pub stop: bool,
}

/// The message that carries what the user typed.
pub open spec fn stdin_spec(data: Seq<u8>) -> Tree {
    wire::put(
        single("event"@, Value::Text("stdin"@)),
        "data"@,
        Value::Text(text::lossy_spec(data)),
    )
}

/// The contents of a message, if there is one.
pub open spec fn message_content(message: Option<Nvtree>) -> Option<Tree> {
    match message {
        Some(message) => Some(wire::content(message)),
        None => None,
    }
}

/// What is sent and whether the client detaches, for bytes that the user typed, or
/// for the end of the input.
pub open spec fn input_spec(read: Option<Seq<u8>>, detach_enabled: bool) -> (Option<Tree>, bool, bool) {
    match read {
        None => (Some(single("event"@, Value::Text("stdin_eof"@))), false, true),
        Some(bytes) => {
            let end = if detach_enabled {
                detach_place(bytes, 0)
            } else {
                bytes.len() as int
            };
            (
                if end > 0 {
                    Some(stdin_spec(bytes.take(end)))
                } else {
                    None
                },
                end < bytes.len(),
                end < bytes.len(),
            )
        },
    }
}

/// Decides what becomes of what the user typed: it is sent on, up to the byte that
/// detaches. At the end of the input that is said instead.
pub fn session_input(read: Option<&[u8]>, detach_enabled: bool) -> (input: Input)
    ensures
        (message_content(input.message), input.detach, input.stop) == input_spec(
            match read {
                Some(bytes) => Some(bytes@),
                None => None,
            },
            detach_enabled,
        ),
{
    match read {
        None => {
            let mut message = nvtree::nvtree_create(0);
            let _ = nvtree::nvtree_add(&mut message, nvtree::nvtree_string("event", "stdin_eof"));
            Input { message: Some(message), detach: false, stop: true }
        },
        Some(bytes) => {
            let mut end: usize = 0;
            let mut data: Vec<u8> = Vec::new();
            while end < bytes.len() && !(detach_enabled && bytes[end] == DETACH_BYTE)
                invariant
                    end <= bytes@.len(),
                    data@ == bytes@.take(end as int),
                    detach_enabled ==> detach_place(bytes@, 0) == detach_place(
                        bytes@,
                        end as int,
                    ),
                decreases bytes@.len() - end,
            {
                data.push(bytes[end]);
                proof {
                    assert(bytes@.take(end + 1) =~= bytes@.take(end as int).push(
                        bytes@[end as int],
                    ));
                }
                end += 1;
            }
            let message = if end > 0 {
                let mut message = nvtree::nvtree_create(0);
                let _ = nvtree::nvtree_add(&mut message, nvtree::nvtree_string("event", "stdin"));
                let typed = lossy(data.as_slice());
                let _ = nvtree::nvtree_add(
                    &mut message,
                    nvtree::nvtree_string("data", typed.as_str()),
                );
                Some(message)
            } else {
                None
            };
            Input { message, detach: end < bytes.len(), stop: end < bytes.len() }
        },
    }
}

/// Something that a client prints.
pub enum Output {
    /// A line on the standard output.
    Line(String),
    /// Text on the standard output.
    Stdout(String),
    /// Text on the standard error output.
    Stderr(String),
}

/// Something that a client prints, as characters.
pub enum Printed {
    Line(Seq<char>),
    Stdout(Seq<char>),
    Stderr(Seq<char>),
}

impl View for Output {
    type V = Printed;

    open spec fn view(&self) -> Printed {
        match self {
            Output::Line(line) => Printed::Line(line@),
            Output::Stdout(output) => Printed::Stdout(output@),
            Output::Stderr(output) => Printed::Stderr(output@),
        }
    }
}

/// A list of things that a client prints, as characters.
pub open spec fn printed(list: Seq<Output>) -> Seq<Printed> {
    list.map_values(|output: Output| output@)
}

/// What a client prints for an event.
pub open spec fn event_output(event: Tree) -> Seq<Printed> {
    let shown = seq![];
    let shown = match request::text_at(event, "command"@) {
        Some(command) => shown.push(Printed::Line("$ "@ + command)),
        None => shown,
    };
    let shown = match request::text_at(event, "stdout"@) {
        Some(output) => shown.push(Printed::Stdout(output)),
        None => shown,
    };
    let shown = match request::text_at(event, "stderr"@) {
        Some(output) => shown.push(Printed::Stderr(output)),
        None => shown,
    };
    match request::text_at(event, "message"@) {
        Some(message) => shown.push(Printed::Line(message)),
        None => shown,
    }
}

fn show(list: Vec<Output>, output: Output) -> (longer: Vec<Output>)
    ensures
        printed(longer@) == printed(list@).push(output@),
{
    let mut longer = list;
    longer.push(output);
    proof {
        assert(printed(longer@) =~= printed(list@).push(output@));
    }
    longer
}

/// What a client prints for an event.
pub fn print_event(event: &Nvtree) -> (shown: Vec<Output>)
    ensures
        printed(shown@) == event_output(wire::content(*event)),
{
    let mut shown: Vec<Output> = Vec::new();
    proof {
        assert(printed(shown@) =~= seq![]);
    }
    if let Some(command) = optional_string(event, "command") {
        shown = show(shown, Output::Line(owned("$ ").concat(command.as_str())));
    }
    if let Some(output) = optional_string(event, "stdout") {
        shown = show(shown, Output::Stdout(output));
    }
    if let Some(output) = optional_string(event, "stderr") {
        shown = show(shown, Output::Stderr(output));
    }
    if let Some(message) = optional_string(event, "message") {
        shown = show(shown, Output::Line(message));
    }
    shown
}

/// What a client does with what came from the daemon.
pub enum Reply {
    /// The session ends with this response.
    Finished(Nvtree),
    /// Something is printed, and detaching may be allowed from now on.
    Show { output: Vec<Output>, allow_detach: bool },
    /// The session ends with an error.
    Failed(Error),
}

/// What a client does with what came from the daemon, as plain values.
pub enum ReplyModel {
    Finished(Tree),
    Show { output: Seq<Printed>, allow_detach: bool },
    Failed(Seq<char>),
}

impl View for Reply {
    type V = ReplyModel;

    open spec fn view(&self) -> ReplyModel {
        match self {
            Reply::Finished(response) => ReplyModel::Finished(wire::content(*response)),
            Reply::Show { output, allow_detach } => ReplyModel::Show {
                output: printed(output@),
                allow_detach: *allow_detach,
            },
            Reply::Failed(error) => ReplyModel::Failed(error@),
        }
    }
}

/// What follows from what came from the daemon. A connection that breaks after the
/// client has detached is a success.
pub open spec fn reply_spec(received: Result<Tree, Seq<char>>, detached: bool) -> ReplyModel {
    match received {
        Err(error) => if detached {
            ReplyModel::Finished(success_spec(0, seq![], seq![]))
        } else {
            ReplyModel::Failed(error)
        },
        Ok(response) => match wire::get(response, "event"@) {
            None => ReplyModel::Finished(response),
            Some(Value::Nested(event)) => ReplyModel::Show {
                output: event_output(event),
                allow_detach: request::flag_at(event, "detach"@) == Some(true),
            },
            Some(_) => ReplyModel::Failed("invalid event from priosund"@),
        },
    }
}

/// Decides what becomes of what came from the daemon: events are shown, and the
/// first other tree is the response.
pub fn session_reply(received: Result<Nvtree, Error>, detached: bool) -> (reply: Reply)
    ensures
        reply@ == reply_spec(request::tree_result(received), detached),
{
    match received {
        Err(error) => if detached {
            let nothing: Vec<u8> = Vec::new();
            proof {
                assert(nothing@ =~= seq![]);
            }
            Reply::Finished(success(0, nothing.as_slice(), nothing.as_slice()))
        } else {
            Reply::Failed(error)
        },
        Ok(response) => {
            let step = match find(&response, "event") {
                None => None,
                Some(Found::Nested(event)) => {
                    let output = print_event(event);
                    let allow_detach = match request::optional_bool(event, "detach") {
                        Some(allowed) => allowed,
                        None => false,
                    };
                    Some(Reply::Show { output, allow_detach })
                },
                Some(_) => Some(
                    Reply::Failed(Error::new(owned("invalid event from priosund"))),
                ),
            };
            match step {
                Some(reply) => reply,
                None => Reply::Finished(response),
            }
        },
    }
}

/// A session goes on exactly while events arrive: every response of the daemon ends
/// it, with that response.
pub proof fn law_session_ends_with_the_response(response: Tree, detached: bool)
    requires
        is_response(response) || is_error(response),
    ensures
        reply_spec(Ok(response), detached) == ReplyModel::Finished(response),
{
}

/// A serial console can be detached from, and nothing that was typed behind the
/// detach byte is sent.
pub proof fn law_detach_stops_the_input(bytes: Seq<u8>)
    ensures
        reply_spec(Ok(event_spec("serial console"@, None, None, true)), false) matches ReplyModel::Show {
            output,
            allow_detach,
        } && allow_detach,
        bytes.contains(DETACH_BYTE) ==> ({
            let (message, detach, stop) = input_spec(Some(bytes), true);
            &&& detach && stop
            &&& match message {
                Some(sent) => exists|end: int|
                    0 < end < bytes.len() && bytes[end] == DETACH_BYTE && sent == stdin_spec(
                        #[trigger] bytes.take(end),
                    ) && !bytes.take(end).contains(DETACH_BYTE),
                None => bytes[0] == DETACH_BYTE,
            }
        }),
        !bytes.contains(DETACH_BYTE) ==> !input_spec(Some(bytes), true).1,
{
    lemma_detach_place(bytes, 0);
    let end = detach_place(bytes, 0);
    if bytes.contains(DETACH_BYTE) && end > 0 {
        assert(!bytes.take(end).contains(DETACH_BYTE));
    }
    reveal_strlit("serial console");
    let event = wire::put(wire::empty_tree(), "command"@, Value::Text("serial console"@));
    wire::law_put_get(wire::empty_tree(), "command"@, Value::Text("serial console"@), "detach"@);
    wire::law_put_get(event, "detach"@, Value::Flag(true), "detach"@);
    lemma_single("event"@, Value::Nested(wire::put(event, "detach"@, Value::Flag(true))));
}

proof fn lemma_detach_place(bytes: Seq<u8>, from: int)
    requires
        0 <= from <= bytes.len(),
    ensures
        from <= detach_place(bytes, from) <= bytes.len(),
        detach_place(bytes, from) < bytes.len() ==> bytes[detach_place(bytes, from)]
            == DETACH_BYTE,
        forall|i: int| from <= i < detach_place(bytes, from) ==> bytes[i] != DETACH_BYTE,
    decreases bytes.len() - from,
{
    if from < bytes.len() && bytes[from] != DETACH_BYTE {
        lemma_detach_place(bytes, from + 1);
    }
}

proof fn lemma_event_names()
    ensures
        "command"@ != "stdout"@ && "command"@ != "stderr"@ && "command"@ != "detach"@ && "command"@
            != "message"@,
        "stdout"@ != "stderr"@ && "stdout"@ != "detach"@ && "stdout"@ != "message"@ && "stdout"@
            != "status"@,
        "stderr"@ != "detach"@ && "stderr"@ != "message"@ && "stderr"@ != "status"@,
        "detach"@ != "message"@,
{
    reveal_strlit("command");
    reveal_strlit("stdout");
    reveal_strlit("stderr");
    reveal_strlit("detach");
    reveal_strlit("message");
    reveal_strlit("status");
    assert("command"@.len() == 7 && "message"@.len() == 7 && "stdout"@.len() == 6);
    assert("stderr"@.len() == 6 && "detach"@.len() == 6 && "status"@.len() == 6);
    assert("command"@[0] == 'c' && "message"@[0] == 'm' && "detach"@[0] == 'd');
    assert("stdout"@[3] == 'o' && "stderr"@[3] == 'e' && "stdout"@[0] == 's');
    assert("stderr"@[0] == 's' && "status"@[3] == 't');
}

/// What the daemon tells a client while it works is what the client prints: a command as a
/// line behind a dollar sign, its output and its errors each where they belong, and a message
/// as a line. The session goes on, and detaching is allowed exactly if the event says so.
pub proof fn law_events_are_printed(
    command: Seq<char>,
    stdout: Option<Seq<u8>>,
    stderr: Option<Seq<u8>>,
    detach: bool,
    message: Seq<char>,
    detached: bool,
)
    ensures
        ({
            let reply = reply_spec(Ok(event_spec(command, stdout, stderr, detach)), detached);
            let first = if command.len() > 0 {
                seq![Printed::Line("$ "@ + command)]
            } else {
                seq![]
            };
            let second = match stdout {
                Some(data) => seq![Printed::Stdout(text::lossy_spec(data))],
                None => seq![],
            };
            let third = match stderr {
                Some(data) => seq![Printed::Stderr(text::lossy_spec(data))],
                None => seq![],
            };
            reply matches ReplyModel::Show { output, allow_detach } && allow_detach == detach
                && output =~= first + second + third
        }),
        reply_spec(Ok(message_spec(message)), detached) matches ReplyModel::Show {
            output,
            allow_detach,
        } && !allow_detach && output =~= seq![Printed::Line(message)],
{
    lemma_envelope_names();
    lemma_event_names();
    let event = wire::get(event_spec(command, stdout, stderr, detach), "event"@)->Some_0->Nested_0;
    assert(request::text_at(event, "command"@) == if command.len() > 0 {
        Some(command)
    } else {
        None
    });
    assert(request::text_at(event, "message"@) is None);
    assert(request::flag_at(event, "detach"@) == Some(true) <==> detach);
    let told = wire::get(message_spec(message), "event"@)->Some_0->Nested_0;
    assert(request::text_at(told, "message"@) == Some(message));
    assert(request::text_at(told, "command"@) is None);
    assert(request::text_at(told, "stdout"@) is None);
    assert(request::text_at(told, "stderr"@) is None);
    assert(request::flag_at(told, "detach"@) is None);
}

/// A response holds what a command printed and its status, where a negative one counts as
/// zero.
pub proof fn law_response_holds_the_outcome(status: int, stdout: Seq<u8>, stderr: Seq<u8>)
    requires
        status <= u64::MAX,
    ensures
        ({
            let payload = wire::get(success_spec(status, stdout, stderr), "response"@)->Some_0->Nested_0;
            &&& wire::get(success_spec(status, stdout, stderr), "response"@) == Some(
                Value::Nested(payload),
            )
            &&& request::number_at(payload, "status"@) matches Some(number) && number == (if status
                < 0 {
                0
            } else {
                status
            })
            &&& request::text_at(payload, "stdout"@) == Some(text::lossy_spec(stdout))
            &&& request::text_at(payload, "stderr"@) == Some(text::lossy_spec(stderr))
        }),
{
    lemma_event_names();
}

/// What a client types is sent to the daemon as it is, up to the byte that detaches it where
/// that is allowed; the end of the input is told as such.
pub proof fn law_input_is_sent(bytes: Seq<u8>)
    requires
        bytes.len() > 0,
    ensures
        input_spec(Some(bytes), false) == (Some(stdin_spec(bytes)), false, false),
        (forall|i: int| 0 <= i < bytes.len() ==> #[trigger] bytes[i] != 0x1d) ==> input_spec(
            Some(bytes),
            true,
        ) == (Some(stdin_spec(bytes)), false, false),
        input_spec(None, true) == input_spec(None, false),
        input_spec(None, true).0 == Some(single("event"@, Value::Text("stdin_eof"@))),
        input_spec(None, true).2 && !input_spec(None, true).1,
        request::text_at(stdin_spec(bytes), "event"@) == Some("stdin"@),
        request::text_at(stdin_spec(bytes), "data"@) == Some(text::lossy_spec(bytes)),
{
    assert(bytes.take(bytes.len() as int) =~= bytes);
    if forall|i: int| 0 <= i < bytes.len() ==> #[trigger] bytes[i] != 0x1d {
        lemma_no_detach(bytes, 0);
    }
    reveal_strlit("event");
    reveal_strlit("data");
    assert("event"@.len() == 5 && "data"@.len() == 4);
}

proof fn lemma_no_detach(bytes: Seq<u8>, from: int)
    requires
        0 <= from <= bytes.len(),
        forall|i: int| 0 <= i < bytes.len() ==> #[trigger] bytes[i] != 0x1d,
    ensures
        detach_place(bytes, from) == bytes.len(),
    decreases bytes.len() - from,
{
    if from < bytes.len() {
        assert(bytes[from] != 0x1d);
        lemma_no_detach(bytes, from + 1);
    }
}

/// A message is refused for its length exactly above sixteen mebibytes, and its length stands
/// in front of it in four bytes, the highest first.
pub proof fn law_messages_are_limited(data: Seq<u8>)
    requires
        data.len() <= u32::MAX,
    ensures
        ({
            let frame = frame_spec(data);
            &&& frame.len() == 4 + data.len()
            &&& frame.skip(4) == data
            &&& frame[0] * 16777216 + frame[1] * 65536 + frame[2] * 256 + frame[3] == data.len()
            &&& length_spec(frame.take(4)) is Ok <==> data.len() <= 16 * 1024 * 1024
        }),
{
    let n = data.len() as int;
    let frame = frame_spec(data);
    assert(frame.skip(4) =~= data);
    assert(frame.take(4) =~= big_endian_bytes(n));
    assert(n / 16777216 < 256);
    assert(n == n / 16777216 * 16777216 + n / 65536 % 256 * 65536 + n / 256 % 256 * 256 + n % 256)
        by (nonlinear_arith)
        requires
            0 <= n <= 4294967295,
    ;
}

/// A request is accepted exactly if it names a command that is known.
pub proof fn law_known_commands_are_accepted(tree: Tree)
    ensures
        accepted(Ok(tree)) == Ok::<Tree, Seq<char>>(tree) <==> (request::text_at(
            tree,
            "command"@,
        ) matches Some(command) && request::supported_commands().contains(command)),
        accepted(Ok(tree)) is Ok ==> accepted(Ok(tree))->Ok_0 == tree,
{
}

/// The daemon is found where it listens.
pub proof fn law_socket_lies_in_its_directory()
    ensures
        SOCKET_PATH@ == "/var/run/priosun/socket"@,
        SOCKET_BASE@ == "/var/run/priosun"@,
        text::join_path_spec(SOCKET_BASE@, "socket"@) == SOCKET_PATH@,
{
    reveal_strlit("/var/run/priosun");
    reveal_strlit("/var/run/priosun/socket");
    reveal_strlit("socket");
    assert("/var/run/priosun"@.push('/') + "socket"@ =~= "/var/run/priosun/socket"@);
}

/// A session ends with the answer of the daemon, which is any message that is no event. A
/// connection that is lost is the end of a session that was detached from, and the failure
/// of any other.
pub proof fn law_sessions_end_with_the_answer(response: Tree, reason: Seq<char>, detached: bool)
    ensures
        wire::get(response, "event"@) is None ==> reply_spec(Ok(response), detached)
            == ReplyModel::Finished(response),
        wire::get(response, "event"@) is Some ==> !(reply_spec(Ok(response), detached) is Finished),
        wire::get(response, "event"@) is Some && !(wire::get(response, "event"@)->Some_0 is Nested)
            ==> reply_spec(Ok(response), detached) is Failed,
        reply_spec(Err(reason), false) == ReplyModel::Failed(reason),
        reply_spec(Err(reason), true) == ReplyModel::Finished(
            success_spec(0, Seq::empty(), Seq::empty()),
        ),
{
}

/// A request that is refused is told why: the command that is not known, or that there is
/// none; and every other request is accepted.
pub proof fn law_unknown_commands_are_named(request: Tree, command: Seq<char>)
    ensures
        request::text_at(request, "command"@) is None ==> refused_request(request) is Some,
        request::text_at(request, "command"@) == Some(command) ==> {
            &&& refused_request(request) is Some <==> !request::supported_commands().contains(command)
            &&& refused_request(request) matches Some(reason) ==> text::ends_with_spec(
                reason,
                command,
            )
            &&& named_command(request) == command
        },
{
    let reason = "unsupported command: "@ + command;
    assert(reason.skip(reason.len() - command.len()) =~= command);
}

} // verus!
