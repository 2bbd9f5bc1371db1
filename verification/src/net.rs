//! Network interfaces: the requests that the kernel takes for them.

use vstd::prelude::*;

use crate::address;
use crate::address::parse_ipv4;
use crate::error::Error;
use crate::plan;
use crate::plan::{Act, Action, Plan, PlanModel};
use crate::text;
use crate::text::{append, contains, decimal, from_utf8, owned, same};

verus! {

// ---------------------------------------------------------------------------
// Names of interfaces
// ---------------------------------------------------------------------------

/// The room for the name of an interface, with the zero byte at its end.
pub const IFNAMSIZ: usize = 16;

/// The place of the first zero byte at or behind `from`; the number of bytes if there is
/// none.
pub open spec fn zero_from(bytes: Seq<u8>, from: int) -> int
    decreases bytes.len() - from,
{
    if from < 0 || from >= bytes.len() {
        bytes.len() as int
    } else if bytes[from] == 0 {
        from
    } else {
        zero_from(bytes, from + 1)
    }
}

proof fn lemma_zero_from(bytes: Seq<u8>, from: int)
    requires
        0 <= from <= bytes.len(),
    ensures
        from <= zero_from(bytes, from) <= bytes.len(),
        zero_from(bytes, from) < bytes.len() ==> bytes[zero_from(bytes, from)] == 0,
        forall|i: int| from <= i < zero_from(bytes, from) ==> bytes[i] != 0,
    decreases bytes.len() - from,
{
    if from < bytes.len() && bytes[from] != 0 {
        lemma_zero_from(bytes, from + 1);
    }
}

/// The bytes of a name, with zero bytes behind them.
pub open spec fn padded(bytes: Seq<u8>) -> Seq<u8> {
    Seq::new(16, |i: int| if i < bytes.len() { bytes[i] } else { 0u8 })
}

/// The name of an interface as the kernel takes it.
pub open spec fn name_spec(name: Seq<char>) -> Result<Seq<u8>, Seq<char>> {
    let bytes = vstd::utf8::encode_utf8(name);
    let zero = zero_from(bytes, 0);
    if zero < bytes.len() {
        Err(
            "nul byte found in provided data at position: "@ + text::decimal_spec(zero as nat),
        )
    } else if bytes.len() + 1 > 16 {
        Err("interface name is too long"@)
    } else {
        Ok(padded(bytes))
    }
}

/// What a result holds, as bytes.
pub open spec fn name_result(result: Result<[u8; 16], Error>) -> Result<Seq<u8>, Seq<char>> {
    match result {
        Ok(bytes) => Ok(bytes@),
        Err(error) => Err(error@),
    }
}

/// Turns the name of an interface into what the kernel takes.
pub fn interface_name(name: &str) -> (result: Result<[u8; 16], Error>)
    ensures
        name_result(result) == name_spec(name@),
{
    let bytes = name.as_bytes();
    let mut zero: usize = 0;
    while zero < bytes.len() && bytes[zero] != 0
        invariant
            zero <= bytes@.len(),
            zero_from(bytes@, 0) == zero_from(bytes@, zero as int),
        decreases bytes@.len() - zero,
    {
        zero += 1;
    }
    if zero < bytes.len() {
        return Err(
            Error::new(
                owned("nul byte found in provided data at position: ").concat(
                    decimal(zero as u64).as_str(),
                ),
            ),
        );
    }
    if bytes.len() > 15 {
        return Err(Error::new(owned("interface name is too long")));
    }
    let mut result: [u8; 16] = [0, 0, 0, 0, 0, 0, 0, 0, 0, 0, 0, 0, 0, 0, 0, 0];
    let mut index: usize = 0;
    while index < bytes.len()
        invariant
            index <= bytes@.len() <= 15,
            forall|i: int| 0 <= i < 16 ==> result@[i] == if i < index { bytes@[i] } else { 0u8 },
        decreases bytes@.len() - index,
    {
        result[index] = bytes[index];
        index += 1;
    }
    proof {
        assert(result@ =~= padded(bytes@));
    }
    Ok(result)
}

/// The name of an interface as the kernel gives it: what comes before the first zero byte.
pub open spec fn read_name_spec(bytes: Seq<u8>) -> Result<Seq<char>, Seq<char>> {
    text::utf8_spec(bytes.take(zero_from(bytes, 0)))
}

/// Reads the name of an interface as the kernel gives it.
pub fn read_interface_name(bytes: [u8; 16]) -> (result: Result<String, Error>)
    ensures
        match result {
            Ok(name) => read_name_spec(bytes@) == Ok::<Seq<char>, Seq<char>>(name@),
            Err(error) => read_name_spec(bytes@) == Err::<Seq<char>, Seq<char>>(error@),
        },
{
    let mut name: Vec<u8> = Vec::new();
    let mut index: usize = 0;
    while index < 16 && bytes[index] != 0
        invariant
            index <= 16,
            name@ == bytes@.take(index as int),
            zero_from(bytes@, 0) == zero_from(bytes@, index as int),
        decreases 16 - index,
    {
        name.push(bytes[index]);
        proof {
            assert(bytes@.take(index + 1) =~= bytes@.take(index as int).push(
                bytes@[index as int],
            ));
        }
        index += 1;
    }
    match from_utf8(name) {
        Ok(name) => Ok(name),
        Err(reason) => Err(Error::new(reason)),
    }
}

/// A name that the kernel takes is given back by it as it was.
pub proof fn law_interface_name_reads_back(name: Seq<char>)
    requires
        name_spec(name) is Ok,
    ensures
        read_name_spec(name_spec(name)->Ok_0) == Ok::<Seq<char>, Seq<char>>(name),
{
    let bytes = vstd::utf8::encode_utf8(name);
    let given = padded(bytes);
    lemma_zero_from(bytes, 0);
    lemma_zero_from(given, 0);
    let zero = zero_from(given, 0);
    assert(given[bytes.len() as int] == 0);
    assert(zero == bytes.len()) by {
        if zero < bytes.len() {
            assert(given[zero] == bytes[zero]);
        }
    }
    assert(given.take(zero) =~= bytes);
    vstd::utf8::encode_utf8_valid_utf8(name);
    vstd::utf8::encode_utf8_decode_utf8(name);
}

// ---------------------------------------------------------------------------
// Requests
// ---------------------------------------------------------------------------

pub const IOC_IN: u64 = 0x8000_0000;

pub const IOC_OUT: u64 = 0x4000_0000;

/// The number of a request on interfaces: the direction of its data, their size, the
/// letter of the group and the number in it.
pub open spec fn request_spec(direction: u64, number: u64, size: u64) -> u64 {
    direction | (size << 16) | (0x69u64 << 8) | number
}

/// The number of a request on interfaces.
pub fn ioc(direction: u64, number: u64, size: u64) -> (request: u64)
    ensures
        request == request_spec(direction, number, size),
{
    direction | (size << 16) | (0x69u64 << 8) | number
}

/// The parts of a request number do not touch each other: each can be read off again.
pub proof fn law_request_parts_are_apart(direction: u64, number: u64, size: u64)
    requires
        direction == IOC_IN || direction == IOC_OUT || direction == IOC_IN | IOC_OUT,
        number < 0x100,
        size < 0x2000,
    ensures
        request_spec(direction, number, size) & 0xff == number,
        (request_spec(direction, number, size) >> 8) & 0xff == 0x69,
        (request_spec(direction, number, size) >> 16) & 0x1fff == size,
        request_spec(direction, number, size) & 0xe000_0000 == direction,
{
    assert(0x8000_0000u64 | 0x4000_0000u64 == 0xc000_0000u64) by (bit_vector);
    assert((direction | (size << 16) | (0x69u64 << 8) | number) & 0xff == number) by (bit_vector)
        requires
            direction & 0x1fff_ffff == 0 || direction == 0xc000_0000 || direction == 0x8000_0000
                || direction == 0x4000_0000,
            direction == 0x8000_0000 || direction == 0x4000_0000 || direction == 0xc000_0000,
            number < 0x100,
            size < 0x2000,
    ;
    assert(((direction | (size << 16) | (0x69u64 << 8) | number) >> 8) & 0xff == 0x69) by (
    bit_vector)
        requires
            direction == 0x8000_0000 || direction == 0x4000_0000 || direction == 0xc000_0000,
            number < 0x100,
            size < 0x2000,
    ;
    assert(((direction | (size << 16) | (0x69u64 << 8) | number) >> 16) & 0x1fff == size) by (
    bit_vector)
        requires
            direction == 0x8000_0000 || direction == 0x4000_0000 || direction == 0xc000_0000,
            number < 0x100,
            size < 0x2000,
    ;
    assert((direction | (size << 16) | (0x69u64 << 8) | number) & 0xe000_0000 == direction) by (
    bit_vector)
        requires
            direction == 0x8000_0000 || direction == 0x4000_0000 || direction == 0xc000_0000,
            number < 0x100,
            size < 0x2000,
    ;
}

/// The kernel module that an interface of a kind comes from.
pub open spec fn module_spec(kind: Seq<char>) -> Option<Seq<char>> {
    if kind == "bridge"@ {
        Some("if_bridge"@)
    } else if kind == "epair"@ {
        Some("if_epair"@)
    } else if kind == "tap"@ {
        Some("if_tap"@)
    } else {
        None
    }
}

/// The kernel module that an interface of a kind comes from.
pub fn interface_module(kind: &str) -> (module: Option<&'static str>)
    ensures
        match module {
            Some(module) => module_spec(kind@) == Some(module@),
            None => module_spec(kind@) is None,
        },
{
    if same(kind, "bridge") {
        Some("if_bridge")
    } else if same(kind, "epair") {
        Some("if_epair")
    } else if same(kind, "tap") {
        Some("if_tap")
    } else {
        None
    }
}

/// Where the creation of an interface stands.
#[derive(Debug, Clone, Copy, PartialEq, Eq, Structural)]
pub enum Creation {
    /// The kernel is asked for the interface.
    Asking,
    /// It is looked up whether the module is loaded.
    Checking,
    /// The module is loaded.
    Loading,
    /// The kernel is asked again.
    AskingAgain,
    /// The interface exists.
    Created,
    /// There will be no interface.
    Refused,
}

/// What follows from how a part of the creation of an interface went. If the kernel cannot
/// create it, its module is loaded unless it is there, and the kernel is asked once more.
pub open spec fn creation_spec(kind: Seq<char>, stage: Creation, succeeded: bool) -> Creation {
    match stage {
        Creation::Asking => if succeeded {
            Creation::Created
        } else if module_spec(kind) is Some {
            Creation::Checking
        } else {
            Creation::Refused
        },
        Creation::Checking => if succeeded {
            Creation::AskingAgain
        } else {
            Creation::Loading
        },
        Creation::Loading => Creation::AskingAgain,
        Creation::AskingAgain => if succeeded {
            Creation::Created
        } else {
            Creation::Refused
        },
        Creation::Created => Creation::Created,
        Creation::Refused => Creation::Refused,
    }
}

/// What follows from how a part of the creation of an interface went.
pub fn create(kind: &str, stage: Creation, succeeded: bool) -> (next: Creation)
    ensures
        next == creation_spec(kind@, stage, succeeded),
{
    match stage {
        Creation::Asking => if succeeded {
            Creation::Created
        } else if interface_module(kind).is_some() {
            Creation::Checking
        } else {
            Creation::Refused
        },
        Creation::Checking => if succeeded {
            Creation::AskingAgain
        } else {
            Creation::Loading
        },
        Creation::Loading => Creation::AskingAgain,
        Creation::AskingAgain => if succeeded {
            Creation::Created
        } else {
            Creation::Refused
        },
        Creation::Created => Creation::Created,
        Creation::Refused => Creation::Refused,
    }
}

/// The kernel is asked for an interface at most twice: whatever happens, four parts
/// decide.
pub proof fn law_creation_is_decided(kind: Seq<char>, first: bool, second: bool, third: bool, fourth: bool)
    ensures
        ({
            let a = creation_spec(kind, Creation::Asking, first);
            let b = creation_spec(kind, a, second);
            let c = creation_spec(kind, b, third);
            let d = creation_spec(kind, c, fourth);
            d == Creation::Created || d == Creation::Refused
        }),
{
}

/// What the kernel is asked about an interface.
#[derive(Debug, Clone, Copy, PartialEq, Eq, Structural)]
pub enum InterfaceRequest {
    SetFlags,
    GetFlags,
    SetIpv4,
    SetIpv6,
    Rename,
    Destroy,
    Create,
    AddGroup,
    /// Ask the driver of the interface.
    Driver,
    /// Move the interface into a jail.
    MoveToJail,
}

/// The direction of the data of a request, and its number.
pub open spec fn request_parts(request: InterfaceRequest) -> (u64, u64) {
    match request {
        InterfaceRequest::SetFlags => (IOC_IN, 16),
        InterfaceRequest::GetFlags => (IOC_IN | IOC_OUT, 17),
        InterfaceRequest::SetIpv4 => (IOC_IN, 43),
        InterfaceRequest::SetIpv6 => (IOC_IN, 27),
        InterfaceRequest::Rename => (IOC_IN, 40),
        InterfaceRequest::Destroy => (IOC_IN, 121),
        InterfaceRequest::Create => (IOC_IN | IOC_OUT, 124),
        InterfaceRequest::AddGroup => (IOC_IN, 135),
        InterfaceRequest::Driver => (IOC_IN, 123),
        InterfaceRequest::MoveToJail => (IOC_IN | IOC_OUT, 90),
    }
}

/// The number under which the kernel takes a request with data of a size.
pub fn request_number(request: InterfaceRequest, size: u64) -> (number: u64)
    ensures
        number == request_spec(request_parts(request).0, request_parts(request).1, size),
{
    match request {
        InterfaceRequest::SetFlags => ioc(IOC_IN, 16, size),
        InterfaceRequest::GetFlags => ioc(IOC_IN | IOC_OUT, 17, size),
        InterfaceRequest::SetIpv4 => ioc(IOC_IN, 43, size),
        InterfaceRequest::SetIpv6 => ioc(IOC_IN, 27, size),
        InterfaceRequest::Rename => ioc(IOC_IN, 40, size),
        InterfaceRequest::Destroy => ioc(IOC_IN, 121, size),
        InterfaceRequest::Create => ioc(IOC_IN | IOC_OUT, 124, size),
        InterfaceRequest::AddGroup => ioc(IOC_IN, 135, size),
        InterfaceRequest::Driver => ioc(IOC_IN, 123, size),
        InterfaceRequest::MoveToJail => ioc(IOC_IN | IOC_OUT, 90, size),
    }
}

/// What is wrong with a request that the kernel refused.
pub fn refusal(request: InterfaceRequest, reason: &str) -> (error: Error)
    ensures
        error@ == refusal_spec(request) + ": "@ + reason@,
{
    let operation = match request {
        InterfaceRequest::SetFlags => "set interface flags",
        InterfaceRequest::GetFlags => "get interface flags",
        InterfaceRequest::SetIpv4 => "set IPv4 interface address",
        InterfaceRequest::SetIpv6 => "set IPv6 interface address",
        InterfaceRequest::Rename => "rename interface",
        InterfaceRequest::Destroy => "destroy interface",
        InterfaceRequest::Create => "create interface",
        InterfaceRequest::AddGroup => "add interface group",
        InterfaceRequest::Driver => "change bridge membership",
        InterfaceRequest::MoveToJail => "move interface to jail",
    };
    Error::new(owned(operation).concat(": ").concat(reason))
}

/// What a request is called when the kernel refuses it.
pub open spec fn refusal_spec(request: InterfaceRequest) -> Seq<char> {
    match request {
        InterfaceRequest::SetFlags => "set interface flags"@,
        InterfaceRequest::GetFlags => "get interface flags"@,
        InterfaceRequest::SetIpv4 => "set IPv4 interface address"@,
        InterfaceRequest::SetIpv6 => "set IPv6 interface address"@,
        InterfaceRequest::Rename => "rename interface"@,
        InterfaceRequest::Destroy => "destroy interface"@,
        InterfaceRequest::Create => "create interface"@,
        InterfaceRequest::AddGroup => "add interface group"@,
        InterfaceRequest::Driver => "change bridge membership"@,
        InterfaceRequest::MoveToJail => "move interface to jail"@,
    }
}

/// The two names that renaming an interface, or adding it to a group, takes.
pub fn name_pair(name: &str, other: &str) -> (result: Result<([u8; 16], [u8; 16]), Error>)
    ensures
        match (name_spec(name@), name_spec(other@), result) {
            (Err(reason), _, Err(error)) => error@ == reason,
            (Ok(_), Err(reason), Err(error)) => error@ == reason,
            (Ok(first), Ok(second), Ok(pair)) => pair.0@ == first && pair.1@ == second,
            _ => false,
        },
{
    match interface_name(name) {
        Err(error) => Err(error),
        Ok(first) => match interface_name(other) {
            Err(error) => Err(error),
            Ok(second) => Ok((first, second)),
        },
    }
}

/// Whether an interface is among those that the kernel names.
pub open spec fn listed_spec(names: Seq<Vec<u8>>, name: Seq<char>) -> bool {
    exists|i: int|
        0 <= i < names.len() && (#[trigger] names[i])@ == vstd::utf8::encode_utf8(name)
}

/// Whether an interface is among those that the kernel names.
pub fn is_listed(names: &Vec<Vec<u8>>, name: &str) -> (found: bool)
    ensures
        found == listed_spec(names@, name@),
{
    let wanted = name.as_bytes();
    let mut index: usize = 0;
    while index < names.len()
        invariant
            index <= names@.len(),
            wanted@ == vstd::utf8::encode_utf8(name@),
            forall|i: int| 0 <= i < index ==> (#[trigger] names@[i])@ != wanted@,
        decreases names@.len() - index,
    {
        if equal_bytes(names[index].as_slice(), wanted) {
            return true;
        }
        index += 1;
    }
    false
}

fn equal_bytes(left: &[u8], right: &[u8]) -> (equal: bool)
    ensures
        equal == (left@ == right@),
{
    if left.len() != right.len() {
        return false;
    }
    let mut index: usize = 0;
    while index < left.len()
        invariant
            left@.len() == right@.len(),
            index <= left@.len(),
            forall|i: int| 0 <= i < index ==> left@[i] == right@[i],
        decreases left@.len() - index,
    {
        if left[index] != right[index] {
            return false;
        }
        index += 1;
    }
    proof {
        assert(left@ =~= right@);
    }
    true
}

/// What comes of renaming an interface inside a jail, which a process of its own does: its
/// exit code must be zero.
pub fn rename_in_jail(code: Option<i32>) -> (result: Result<(), Error>)
    ensures
        match result {
            Ok(_) => code == Some(0i32),
            Err(error) => code != Some(0i32) && error@ == "rename interface in jail failed"@,
        },
{
    let good = match code {
        Some(code) => code == 0,
        None => false,
    };
    if good {
        Ok(())
    } else {
        Err(Error::new(owned("rename interface in jail failed")))
    }
}

/// A change to the members of a bridge.
#[derive(Debug)]
pub struct BridgeRequest {
    pub bridge: [u8; 16],
    pub member: [u8; 16],
    /// What is asked of the bridge.
    pub number: u64,
}

pub const BRDGADD: u64 = 0;

pub const BRDGDEL: u64 = 1;

/// Whether a request asks a bridge for this change.
pub open spec fn is_bridge_request(
    result: Result<BridgeRequest, Error>,
    bridge: Seq<char>,
    member: Seq<char>,
    number: u64,
) -> bool {
    match (name_spec(member), name_spec(bridge)) {
        (Err(reason), _) => result matches Err(error) && error@ == reason,
        (Ok(_), Err(reason)) => result matches Err(error) && error@ == reason,
        (Ok(inner), Ok(outer)) => result matches Ok(request) && request.member@ == inner
            && request.bridge@ == outer && request.number == number,
    }
}

fn bridge_member(bridge: &str, member: &str, number: u64) -> (result: Result<BridgeRequest, Error>)
    ensures
        is_bridge_request(result, bridge@, member@, number),
{
    let inner = match interface_name(member) {
        Ok(inner) => inner,
        Err(error) => {
            return Err(error);
        },
    };
    match interface_name(bridge) {
        Ok(outer) => Ok(BridgeRequest { bridge: outer, member: inner, number }),
        Err(error) => Err(error),
    }
}

/// The request that adds an interface to a bridge.
pub fn bridge_add(bridge: &str, member: &str) -> (result: Result<BridgeRequest, Error>)
    ensures
        is_bridge_request(result, bridge@, member@, BRDGADD),
{
    bridge_member(bridge, member, BRDGADD)
}

/// The request that takes an interface out of a bridge.
pub fn bridge_delete(bridge: &str, member: &str) -> (result: Result<BridgeRequest, Error>)
    ensures
        is_bridge_request(result, bridge@, member@, BRDGDEL),
{
    bridge_member(bridge, member, BRDGDEL)
}

// ---------------------------------------------------------------------------
// Addresses
// ---------------------------------------------------------------------------

/// A number of zero bytes.
pub open spec fn zeros(count: nat) -> Seq<u8> {
    Seq::new(count, |i: int| 0u8)
}

/// An IPv4 address as a socket address: its size, its family and, behind the port, its
/// four bytes.
pub open spec fn sockaddr4_spec(family: u8, address: Seq<u8>) -> Seq<u8> {
    seq![16u8, family, 0u8, 0u8] + address + zeros(8)
}

/// An IPv6 address as a socket address: its size, its family and, behind port and flow, its
/// sixteen bytes and no scope.
pub open spec fn sockaddr6_spec(family: u8, address: Seq<u8>) -> Seq<u8> {
    seq![28u8, family] + zeros(6) + address + zeros(4)
}

fn push_zeros(bytes: Vec<u8>, count: usize) -> (longer: Vec<u8>)
    ensures
        longer@ == bytes@ + zeros(count as nat),
{
    let mut longer = bytes;
    let mut index: usize = 0;
    proof {
        assert(longer@ =~= bytes@ + zeros(0));
    }
    while index < count
        invariant
            index <= count,
            longer@ == bytes@ + zeros(index as nat),
        decreases count - index,
    {
        longer.push(0);
        proof {
            assert(bytes@ + zeros((index + 1) as nat) =~= (bytes@ + zeros(index as nat)).push(0));
        }
        index += 1;
    }
    longer
}

fn push_sockaddr4(bytes: Vec<u8>, family: u8, address: &[u8]) -> (longer: Vec<u8>)
    ensures
        longer@ == bytes@ + sockaddr4_spec(family, address@),
{
    let head: [u8; 4] = [16, family, 0, 0];
    let longer = push_zeros(append(append(bytes, head.as_slice()), address), 8);
    proof {
        assert(longer@ =~= bytes@ + sockaddr4_spec(family, address@));
    }
    longer
}

fn push_sockaddr6(bytes: Vec<u8>, family: u8, address: &[u8]) -> (longer: Vec<u8>)
    ensures
        longer@ == bytes@ + sockaddr6_spec(family, address@),
{
    let head: [u8; 2] = [28, family];
    let longer = push_zeros(
        append(push_zeros(append(bytes, head.as_slice()), 6), address),
        4,
    );
    proof {
        assert(longer@ =~= bytes@ + sockaddr6_spec(family, address@));
    }
    longer
}

/// The request that gives an interface an IPv4 address in a network of 256: the name, the
/// address, where it broadcasts to, its mask, and no group of its own.
pub open spec fn alias4_spec(name: Seq<u8>, family: u8, address: Seq<u8>) -> Seq<u8> {
    name + sockaddr4_spec(family, address) + sockaddr4_spec(family, seq![255u8, 255, 255, 255])
        + sockaddr4_spec(family, seq![255u8, 255, 255, 0]) + zeros(4)
}

/// The request that gives an interface an IPv6 address in a network of 64 bits: the name,
/// the address, no destination, its mask, and a lifetime without end.
pub open spec fn alias6_spec(name: Seq<u8>, family: u8, address: Seq<u8>) -> Seq<u8> {
    name + sockaddr6_spec(family, address) + zeros(28) + sockaddr6_spec(
        family,
        seq![255u8, 255, 255, 255, 255, 255, 255, 255, 0, 0, 0, 0, 0, 0, 0, 0],
    ) + zeros(20) + seq![255u8, 255, 255, 255, 255, 255, 255, 255] + zeros(8)
}

/// The request that gives an interface an IPv4 address.
pub fn set_ipv4(interface: &str, family: u8, address: &str) -> (result: Result<Vec<u8>, Error>)
    ensures
        match (address::ipv4_spec(address@), name_spec(interface@), result) {
            (Some(octets), Ok(name), Ok(request)) => request@ == alias4_spec(name, family, octets)
                && request@.len() == 68,
            (None, _, Err(error)) => error@ == address::IPV4_SYNTAX@,
            (Some(_), Err(reason), Err(error)) => error@ == reason,
            _ => false,
        },
{
    let address = match parse_ipv4(address) {
        Ok(address) => address,
        Err(error) => {
            return Err(error);
        },
    };
    let name = match interface_name(interface) {
        Ok(name) => name,
        Err(error) => {
            return Err(error);
        },
    };
    let everyone: [u8; 4] = [255, 255, 255, 255];
    let mask: [u8; 4] = [255, 255, 255, 0];
    let start: Vec<u8> = Vec::new();
    let named = append(start, name.as_slice());
    let addressed = push_sockaddr4(named, family, address.as_slice());
    let broadcast = push_sockaddr4(addressed, family, everyone.as_slice());
    let masked = push_sockaddr4(broadcast, family, mask.as_slice());
    let request = push_zeros(masked, 4);
    proof {
        assert(named@ =~= name@);
        assert(everyone@ =~= seq![255u8, 255, 255, 255]);
        assert(mask@ =~= seq![255u8, 255, 255, 0]);
        assert(request@ =~= alias4_spec(name@, family, address@));
    }
    Ok(request)
}

/// The request that gives an interface an IPv6 address.
pub fn set_ipv6(interface: &str, family: u8, address: [u8; 16]) -> (result: Result<Vec<u8>, Error>)
    ensures
        match (name_spec(interface@), result) {
            (Ok(name), Ok(request)) => request@ == alias6_spec(name, family, address@)
                && request@.len() == 136,
            (Err(reason), Err(error)) => error@ == reason,
            _ => false,
        },
{
    let name = match interface_name(interface) {
        Ok(name) => name,
        Err(error) => {
            return Err(error);
        },
    };
    let mask: [u8; 16] = [255, 255, 255, 255, 255, 255, 255, 255, 0, 0, 0, 0, 0, 0, 0, 0];
    let endless: [u8; 8] = [255, 255, 255, 255, 255, 255, 255, 255];
    let start: Vec<u8> = Vec::new();
    let named = append(start, name.as_slice());
    let addressed = push_sockaddr6(named, family, address.as_slice());
    let direct = push_zeros(addressed, 28);
    let masked = push_sockaddr6(direct, family, mask.as_slice());
    let lasting = append(push_zeros(masked, 20), endless.as_slice());
    let request = push_zeros(lasting, 8);
    proof {
        assert(named@ =~= name@);
        assert(mask@ =~= seq![255u8, 255, 255, 255, 255, 255, 255, 255, 0, 0, 0, 0, 0, 0, 0, 0]);
        assert(endless@ =~= seq![255u8, 255, 255, 255, 255, 255, 255, 255]);
        assert(request@ =~= alias6_spec(name@, family, address@));
    }
    Ok(request)
}

/// What comes of giving an interface an address: that it has the address already is no
/// failure.
pub fn address_outcome(outcome: Result<(), Error>) -> (result: Result<(), Error>)
    ensures
        match outcome {
            Ok(_) => result is Ok,
            Err(error) => if text::contains_spec(error@, "Address already in use"@) {
                result is Ok
            } else {
                result == Err::<(), Error>(error)
            },
        },
{
    match outcome {
        Ok(_) => Ok(()),
        Err(error) => if contains(error.message.as_str(), "Address already in use") {
            Ok(())
        } else {
            Err(error)
        },
    }
}

// ---------------------------------------------------------------------------
// The bridge
// ---------------------------------------------------------------------------

/// How it is told that a bridge is being brought into service.
pub fn bridge_message(bridge: &str) -> (message: String)
    ensures
        message@ == "Starting bridge "@ + bridge@,
{
    owned("Starting bridge ").concat(bridge)
}

/// Whether a bridge has to be created, from the interfaces that the kernel names: none of them
/// bears the wanted name.
pub fn needs_bridge(names: &Vec<Vec<u8>>, bridge: &str) -> (needed: bool)
    ensures
        needed == !listed_spec(names@, bridge@),
{
    !is_listed(names, bridge)
}

/// How a bridge is brought into service. `created` is the name of a bridge that was just
/// created because there was none with the wanted name.
pub open spec fn bridge_plan(
    bridge: Seq<char>,
    ipv4: Option<Seq<char>>,
    ipv6: Option<Seq<char>>,
    created: Option<Seq<char>>,
) -> PlanModel {
    let named = match created {
        Some(name) => if name != bridge {
            plan::no_steps().must(Act::InterfaceRename { from: name, to: bridge })
        } else {
            plan::no_steps()
        },
        None => plan::no_steps(),
    };
    let up = named.must(Act::InterfaceUp(bridge));
    let first = match ipv4 {
        Some(address) => up.must(Act::SetIpv4 { interface: bridge, address }),
        None => up,
    };
    match ipv6 {
        Some(address) => first.must(Act::SetIpv6 { interface: bridge, address }),
        None => first,
    }
}

/// Plans to bring a bridge into service: it gets its name, is brought up and gets its
/// addresses.
pub fn ensure_bridge(
    bridge: &str,
    ipv4: Option<&str>,
    ipv6: Option<&str>,
    created: Option<&str>,
) -> (plan: Plan)
    ensures
        plan@ == bridge_plan(bridge@, text::str_view(ipv4), text::str_view(ipv6), text::str_view(created)),
{
    let named = match created {
        Some(name) => if !same(name, bridge) {
            Plan::new().must(Action::InterfaceRename { from: owned(name), to: owned(bridge) })
        } else {
            Plan::new()
        },
        None => Plan::new(),
    };
    let up = named.must(Action::InterfaceUp(owned(bridge)));
    let first = match ipv4 {
        Some(address) => up.must(
            Action::SetIpv4 { interface: owned(bridge), address: owned(address) },
        ),
        None => up,
    };
    match ipv6 {
        Some(address) => first.must(
            Action::SetIpv6 { interface: owned(bridge), address: owned(address) },
        ),
        None => first,
    }
}

/// The bridge that was created for a wanted one, if one had to be.
pub open spec fn created_bridge(
    names: Seq<Vec<u8>>,
    bridge: Seq<char>,
    created: Seq<char>,
) -> Option<Seq<char>> {
    if listed_spec(names, bridge) {
        None
    } else {
        Some(created)
    }
}

/// A bridge is renamed exactly if there was none with the wanted name and the one that was
/// created for it bears another. In any case the bridge is brought up, and it gets an address
/// of a family exactly if one is given.
pub proof fn law_bridge_is_ensured(
    names: Seq<Vec<u8>>,
    bridge: Seq<char>,
    created: Seq<char>,
    ipv4: Option<Seq<char>>,
    ipv6: Option<Seq<char>>,
)
    ensures
        ({
            let plan = bridge_plan(bridge, ipv4, ipv6, created_bridge(names, bridge, created));
            &&& forall|from: Seq<char>, to: Seq<char>|
                plan.performs(#[trigger] interface_rename(from, to)) <==> !listed_spec(
                    names,
                    bridge,
                ) && created != bridge && from == created && to == bridge
            &&& plan.performs(Act::InterfaceUp(bridge))
            &&& forall|address: Seq<char>|
                plan.performs(#[trigger] ipv4_setting(bridge, address)) <==> ipv4 == Some(address)
            &&& forall|address: Seq<char>|
                plan.performs(#[trigger] ipv6_setting(bridge, address)) <==> ipv6 == Some(address)
        }),
{
    let made = created_bridge(names, bridge, created);
    let plan = bridge_plan(bridge, ipv4, ipv6, made);
    let renamed = made is Some && created != bridge;
    let up: int = if renamed {
        1
    } else {
        0
    };
    if renamed {
        assert(plan.steps[0].action == interface_rename(created, bridge));
    }
    assert(plan.steps[up].action == Act::InterfaceUp(bridge));
    if let Some(address) = ipv4 {
        assert(plan.steps[up + 1].action == ipv4_setting(bridge, address));
    }
    if let Some(address) = ipv6 {
        assert(plan.steps.last().action == ipv6_setting(bridge, address));
        assert(plan.steps[plan.steps.len() - 1].action == ipv6_setting(bridge, address));
    }
}

/// The renaming of an interface.
pub open spec fn interface_rename(from: Seq<char>, to: Seq<char>) -> Act {
    Act::InterfaceRename { from, to }
}

/// The setting of an IPv4 address.
pub open spec fn ipv4_setting(interface: Seq<char>, address: Seq<char>) -> Act {
    Act::SetIpv4 { interface, address }
}

/// The setting of an IPv6 address.
pub open spec fn ipv6_setting(interface: Seq<char>, address: Seq<char>) -> Act {
    Act::SetIpv6 { interface, address }
}

/// What the kernel is asked for an interface is a number of its own: no two requests of one
/// size are the same, and each has the group, the number and the direction that the kernel
/// knows it by.
pub proof fn law_requests_are_told_apart(
    first: InterfaceRequest,
    second: InterfaceRequest,
)
    ensures
        request_parts(first).1 == request_parts(second).1 ==> first == second,
        request_parts(InterfaceRequest::SetFlags).1 == 16,
        request_parts(InterfaceRequest::GetFlags).1 == 17,
        request_parts(InterfaceRequest::SetIpv4).1 == 43,
        request_parts(InterfaceRequest::SetIpv6).1 == 27,
        request_parts(InterfaceRequest::Rename).1 == 40,
        request_parts(InterfaceRequest::Destroy).1 == 121,
        request_parts(InterfaceRequest::Create).1 == 124,
        request_parts(InterfaceRequest::AddGroup).1 == 135,
        request_parts(InterfaceRequest::Driver).1 == 123,
        request_parts(InterfaceRequest::MoveToJail).1 == 90,
        request_parts(first).0 == 0x8000_0000 <==> !(first == InterfaceRequest::GetFlags || first
            == InterfaceRequest::Create || first == InterfaceRequest::MoveToJail),
        request_parts(first).0 == 0x8000_0000 || request_parts(first).0 == 0xc000_0000,
{
    assert(0x8000_0000u64 | 0x4000_0000u64 == 0xc000_0000u64) by (bit_vector);
}

/// Adding to a bridge and taking out of it are two different things.
pub proof fn law_bridge_requests_differ(
    added: BridgeRequest,
    deleted: BridgeRequest,
    bridge: Seq<char>,
    member: Seq<char>,
)
    requires
        is_bridge_request(Ok(added), bridge, member, BRDGADD),
        is_bridge_request(Ok(deleted), bridge, member, BRDGDEL),
    ensures
        added.bridge@ == deleted.bridge@,
        added.member@ == deleted.member@,
        added.number == 0,
        deleted.number == 1,
        name_spec(bridge) == Ok::<Seq<u8>, Seq<char>>(added.bridge@),
        name_spec(member) == Ok::<Seq<u8>, Seq<char>>(added.member@),
{
}

/// A kind of interface that the kernel may lack has its module, and the module of another kind
/// is another one.
pub proof fn law_interfaces_have_their_modules()
    ensures
        module_spec("bridge"@) == Some("if_bridge"@),
        module_spec("epair"@) == Some("if_epair"@),
        module_spec("tap"@) == Some("if_tap"@),
        forall|kind: Seq<char>| #[trigger]
            module_spec(kind) is Some <==> kind == "bridge"@ || kind == "epair"@ || kind == "tap"@,
{
    reveal_strlit("bridge");
    reveal_strlit("epair");
    reveal_strlit("tap");
    assert("bridge"@.len() == 6 && "epair"@.len() == 5 && "tap"@.len() == 3);
}

/// What the kernel is told of an IPv4 address holds the name of the interface, the address, the
/// broadcast address and the mask of a network of 256, each in its place and of its family.
pub proof fn law_alias_holds_the_address(name: Seq<u8>, family: u8, address: Seq<u8>, i: int)
    requires
        name.len() == 16,
        address.len() == 4,
        0 <= i < 4,
    ensures
        ({
            let alias = alias4_spec(name, family, address);
            &&& alias.len() == 68
            &&& alias.take(16) == name
            &&& alias[16] == 16 && alias[17] == family
            &&& alias[20 + i] == address[i]
            &&& alias[32] == 16 && alias[33] == family
            &&& alias[36 + i] == 255
            &&& alias[48] == 16 && alias[49] == family
            &&& alias[52 + i] == if i < 3 {
                255u8
            } else {
                0
            }
        }),
{
    let alias = alias4_spec(name, family, address);
    assert(alias.take(16) =~= name);
    let masks = seq![255u8, 255, 255, 0];
    let all = seq![255u8, 255, 255, 255];
    assert(alias[20 + i] == address[i]);
    assert(alias[36 + i] == all[i]);
    assert(alias[52 + i] == masks[i]);
}

/// What the kernel is told of an IPv6 address holds the name of the interface, the address and
/// the mask of a network of 64 bits, each in its place, and lives for ever.
pub proof fn law_alias6_holds_the_address(name: Seq<u8>, family: u8, address: Seq<u8>, i: int)
    requires
        name.len() == 16,
        address.len() == 16,
        0 <= i < 16,
    ensures
        ({
            let alias = alias6_spec(name, family, address);
            &&& alias.len() == 136
            &&& alias.take(16) == name
            &&& alias[16] == 28 && alias[17] == family
            &&& alias[24 + i] == address[i]
            &&& alias[72] == 28 && alias[73] == family
            &&& alias[80 + i] == if i < 8 {
                255u8
            } else {
                0
            }
            &&& i < 8 ==> alias[120 + i] == 255
        }),
{
    let alias = alias6_spec(name, family, address);
    assert(alias.take(16) =~= name);
    let mask = seq![255u8, 255, 255, 255, 255, 255, 255, 255, 0, 0, 0, 0, 0, 0, 0, 0];
    assert(alias.len() == 136);
    assert(alias[24 + i] == address[i]);
    assert(alias[80 + i] == mask[i]);
    if i < 8 {
        let life = seq![255u8, 255, 255, 255, 255, 255, 255, 255];
        assert(alias[120 + i] == life[i]);
    }
}

/// The name of an interface is refused exactly if it holds a zero or takes more than fifteen
/// bytes.
pub proof fn law_short_names_are_accepted(name: Seq<char>)
    ensures
        ({
            let bytes = vstd::utf8::encode_utf8(name);
            name_spec(name) is Ok <==> bytes.len() <= 15 && !bytes.contains(0)
        }),
{
    let bytes = vstd::utf8::encode_utf8(name);
    lemma_first_zero(bytes, 0);
}

proof fn lemma_first_zero(bytes: Seq<u8>, from: int)
    requires
        0 <= from <= bytes.len(),
    ensures
        from <= zero_from(bytes, from) <= bytes.len(),
        zero_from(bytes, from) < bytes.len() ==> bytes[zero_from(bytes, from)] == 0,
        forall|i: int| from <= i < zero_from(bytes, from) ==> #[trigger] bytes[i] != 0,
    decreases bytes.len() - from,
{
    if from < bytes.len() && bytes[from] != 0 {
        lemma_first_zero(bytes, from + 1);
    }
}

/// A bridge is made exactly if no interface has its name, and is made under its name: whatever
/// the kernel called it, it is renamed, comes up and gets the addresses that are given, in this
/// order.
pub proof fn law_bridge_gets_its_name_and_addresses(
    bridge: Seq<char>,
    ipv4: Option<Seq<char>>,
    ipv6: Option<Seq<char>>,
    created: Option<Seq<char>>,
)
    ensures
        ({
            let plan = bridge_plan(bridge, ipv4, ipv6, created);
            &&& plan.performs(Act::InterfaceUp(bridge))
            &&& ipv4 matches Some(address) ==> plan.performs(
                Act::SetIpv4 { interface: bridge, address },
            )
            &&& ipv6 matches Some(address) ==> plan.performs(
                Act::SetIpv6 { interface: bridge, address },
            )
            &&& created matches Some(name) ==> name != bridge ==> plan.steps[0].action == (
            Act::InterfaceRename { from: name, to: bridge })
            &&& plan.steps.len() == 1 + (if ipv4 is Some {
                1int
            } else {
                0
            }) + (if ipv6 is Some {
                1int
            } else {
                0
            }) + (if created is Some && created != Some(bridge) {
                1int
            } else {
                0
            })
        }),
{
    broadcast use plan::group_plan_contents;

}

/// A refusal of the kernel tells what was asked: no two requests are refused alike.
#[verifier::spinoff_prover]
#[verifier::rlimit(40)]
pub proof fn law_refusals_are_told_apart(first: InterfaceRequest, second: InterfaceRequest)
    ensures
        refusal_spec(first) == refusal_spec(second) <==> first == second,
{
    reveal_strlit("set interface flags");
    reveal_strlit("get interface flags");
    reveal_strlit("set IPv4 interface address");
    reveal_strlit("set IPv6 interface address");
    reveal_strlit("rename interface");
    reveal_strlit("destroy interface");
    reveal_strlit("create interface");
    reveal_strlit("add interface group");
    reveal_strlit("change bridge membership");
    reveal_strlit("move interface to jail");
    assert("set interface flags"@.len() == 19 && "get interface flags"@.len() == 19);
    assert("add interface group"@.len() == 19);
    assert("set IPv4 interface address"@.len() == 26 && "set IPv6 interface address"@.len() == 26);
    assert("rename interface"@.len() == 16 && "create interface"@.len() == 16);
    assert("destroy interface"@.len() == 17 && "change bridge membership"@.len() == 24);
    assert("move interface to jail"@.len() == 22);
    assert("set interface flags"@[0] == 's' && "get interface flags"@[0] == 'g');
    assert("add interface group"@[0] == 'a');
    assert("set IPv4 interface address"@[7] == '4' && "set IPv6 interface address"@[7] == '6');
    assert("rename interface"@[0] == 'r' && "create interface"@[0] == 'c');
}

} // verus!
