//! The extent of an encoded tree: whether the sizes that its bytes declare stay within
//! them, so that it can be read.

use vstd::prelude::*;

verus! {

/// The most bytes that a tree may have when it is read.
pub const SIZE_LIMIT: usize = 16777216;

/// How deep trees may be nested in a message. The reader of messages calls itself for each
/// level, so that without a bound a message could exhaust its stack.
pub const NESTING_LIMIT: u16 = 256;

/// The size of the header of a tree, and of a field.
pub const HEADER: usize = 19;

/// The first byte of a tree. The second is zero.
pub const MAGIC: u8 = 0x6c;

/// The type of a field without a value.
pub const NOTHING: u8 = 1;

/// The type of a field that holds a truth value.
pub const FLAG: u8 = 2;

/// The type of a field that holds a number.
pub const NUMBER: u8 = 3;

/// The type of a field that holds a text.
pub const TEXT: u8 = 4;

/// The type of a field that holds a tree.
pub const NESTED: u8 = 5;

/// The type of a field that holds a list of truth values.
pub const FLAG_LIST: u8 = 8;

/// The type of a field that holds a list of numbers.
pub const NUMBER_LIST: u8 = 9;

/// The type of a field that holds a list of texts.
pub const TEXT_LIST: u8 = 10;

/// The type of a field that holds a list of trees.
pub const NESTED_LIST: u8 = 11;

/// The type of a field that ends a list of fields.
pub const MARKER: u8 = 255;

/// How far a tree or a list of fields reaches.
pub enum Reach {
    /// Its bytes end too early, or it is broken in another way that is noticed there.
    Broken,
    /// It declares more than there is, or is nested too deep.
    Over,
    /// It ends here.
    Ends(int),
}

/// A number of eight bytes.
pub open spec fn number_at(bytes: Seq<u8>, at: int, big: bool) -> int {
    let digit = |i: int| bytes[at + if big { 7 - i } else { i }] as int;
    digit(0) + 0x100 * digit(1) + 0x1_0000 * digit(2) + 0x100_0000 * digit(3) + 0x1_0000_0000
        * digit(4) + 0x100_0000_0000 * digit(5) + 0x1_0000_0000_0000 * digit(6)
        + 0x100_0000_0000_0000 * digit(7)
}

/// A number of two bytes.
pub open spec fn short_at(bytes: Seq<u8>, at: int, big: bool) -> int {
    if big {
        0x100 * bytes[at] + bytes[at + 1]
    } else {
        bytes[at] + 0x100 * bytes[at + 1]
    }
}

/// The bytes that a value takes up whose type gives their number.
pub open spec fn fixed_size(kind: u8) -> Option<int> {
    if kind == NOTHING {
        Some(0)
    } else if kind == FLAG {
        Some(1)
    } else if kind == NUMBER {
        Some(8)
    } else {
        None
    }
}

/// Whether a field of this type holds a number of items.
pub open spec fn is_list(kind: u8) -> bool {
    kind == FLAG_LIST || kind == NUMBER_LIST || kind == TEXT_LIST || kind == NESTED_LIST
}

/// Whether a value of this type has room in its bytes for what it declares.
pub open spec fn has_room(kind: u8, size: int, items: int) -> bool {
    if kind == TEXT {
        size > 0
    } else if kind == FLAG_LIST {
        items <= size
    } else if kind == NUMBER_LIST {
        size % 8 == 0 && items <= size / 8
    } else {
        true
    }
}

/// The place behind a marker that may follow a nested tree.
pub open spec fn past_marker(bytes: Seq<u8>, at: int, end: int) -> int {
    if at + HEADER < end && bytes[at] == MARKER {
        at + HEADER + 1
    } else {
        at
    }
}

/// The place behind a nested tree that ends at `inner`, where its field gave it the bytes
/// up to `after`. What is left of them is a single byte, or a marker.
pub open spec fn past_nested(bytes: Seq<u8>, inner: int, after: int, end: int) -> Option<int> {
    if inner > after {
        None
    } else if inner == after {
        Some(past_marker(bytes, inner, end))
    } else if inner + 1 == after || (inner + HEADER + 1 == after && bytes[inner] == MARKER) {
        Some(after)
    } else {
        None
    }
}

/// The place behind a list of trees that ends at `inner`, where its field gave it the bytes
/// up to `after`. A single zero may be left of them.
pub open spec fn past_list(bytes: Seq<u8>, inner: int, after: int) -> Option<int> {
    if inner == after || (inner + 1 == after && bytes[inner] == 0) {
        Some(after)
    } else {
        None
    }
}

/// How far the tree reaches that starts at `start`. A nested tree counts its header, and
/// mostly one byte more, as part of its size.
pub open spec fn tree_reach(bytes: Seq<u8>, start: int, nested: bool, depth: nat) -> Reach
    decreases depth, 2nat, 0nat,
{
    if start < 0 || start + HEADER > bytes.len() || bytes[start] != MAGIC || bytes[start + 1] != 0 {
        Reach::Broken
    } else {
        let big = bytes[start + 2] >= 128;
        let size = number_at(bytes, start + 11, big);
        let body = if !nested {
            size
        } else if size > HEADER {
            size - HEADER - 1
        } else {
            size - HEADER
        };
        let end = start + HEADER + body;
        if size > u32::MAX {
            Reach::Over
        } else if body < 0 || end > bytes.len() {
            Reach::Broken
        } else {
            match fields_reach(bytes, start + HEADER, end, big, depth) {
                Reach::Ends(_) => Reach::Ends(end),
                other => other,
            }
        }
    }
}

/// How far the fields reach that start at `at`.
pub open spec fn fields_reach(bytes: Seq<u8>, at: int, end: int, big: bool, depth: nat) -> Reach
    decreases
            depth,
            1nat,
            if at < end {
                end - at
            } else {
                0
            },
{
    let kind = bytes[at];
    let name = short_at(bytes, at + 1, big);
    let size = number_at(bytes, at + 3, big);
    let items = number_at(bytes, at + 11, big);
    let data = at + HEADER + name;
    if at >= end {
        Reach::Ends(at)
    } else if at < 0 || end > bytes.len() || at + HEADER > bytes.len() || name <= 0 || data > end {
        Reach::Broken
    } else if kind == MARKER {
        Reach::Ends(data)
    } else if let Some(width) = fixed_size(kind) {
        if data + width > end {
            Reach::Broken
        } else {
            fields_reach(bytes, data + width, end, big, depth)
        }
    } else if kind != TEXT && kind != NESTED && !is_list(kind) {
        Reach::Broken
    } else if size > bytes.len() || (is_list(kind) && items > bytes.len()) {
        Reach::Over
    } else if data + size > end || !has_room(kind, size, items) {
        Reach::Broken
    } else if kind == NESTED {
        if depth == 0 {
            Reach::Over
        } else {
            match tree_reach(bytes, data, true, (depth - 1) as nat) {
                Reach::Ends(inner) => match past_nested(bytes, inner, data + size, end) {
                    Some(next) => if next > at {
                        fields_reach(bytes, next, end, big, depth)
                    } else {
                        Reach::Broken
                    },
                    None => Reach::Broken,
                },
                other => other,
            }
        }
    } else if kind == NESTED_LIST {
        match list_reach(
            bytes,
            data,
            if size > 0 {
                data + size
            } else {
                end
            },
            items as nat,
            depth,
        ) {
            Reach::Ends(inner) => match if size > 0 {
                past_list(bytes, inner, data + size)
            } else {
                Some(inner)
            } {
                Some(next) => if next > at {
                    fields_reach(bytes, next, end, big, depth)
                } else {
                    Reach::Broken
                },
                None => Reach::Broken,
            },
            other => other,
        }
    } else {
        fields_reach(bytes, data + size, end, big, depth)
    }
}

/// How far a list of trees reaches that starts at `at`.
pub open spec fn list_reach(bytes: Seq<u8>, at: int, end: int, items: nat, depth: nat) -> Reach
    decreases depth, 0nat, items,
{
    if items == 0 {
        Reach::Ends(at)
    } else if at >= end {
        Reach::Broken
    } else if depth == 0 {
        Reach::Over
    } else {
        match tree_reach(bytes, at, true, (depth - 1) as nat) {
            Reach::Ends(inner) => list_reach(
                bytes,
                past_marker(bytes, inner, end),
                end,
                (items - 1) as nat,
                depth,
            ),
            other => other,
        }
    }
}

/// Whether the bytes of a tree are few enough, and the sizes that they declare can be taken
/// up.
pub open spec fn is_measured(bytes: Seq<u8>) -> bool {
    bytes.len() <= SIZE_LIMIT && !(tree_reach(bytes, 0, false, NESTING_LIMIT as nat) is Over)
}

/// How far a tree or a list of fields reaches.
enum Extent {
    Broken,
    Over,
    Ends(usize),
}

impl View for Extent {
    type V = Reach;

    closed spec fn view(&self) -> Reach {
        match self {
            Extent::Broken => Reach::Broken,
            Extent::Over => Reach::Over,
            Extent::Ends(end) => Reach::Ends(*end as int),
        }
    }
}

fn byte_of(bytes: &[u8], at: usize, index: usize, big: bool) -> (byte: u64)
    requires
        at + 8 <= bytes@.len(),
        index < 8,
    ensures
        byte < 256,
        byte == bytes@[at + if big { 7 - index } else { index as int }],
{
    let length: usize = bytes.len();
    assert(at + 8 <= length);
    if big {
        bytes[at + (7 - index)] as u64
    } else {
        bytes[at + index] as u64
    }
}

fn read_number(bytes: &[u8], at: usize, big: bool) -> (number: u64)
    requires
        at + 8 <= bytes@.len(),
    ensures
        number == number_at(bytes@, at as int, big),
{
    byte_of(bytes, at, 0, big) + 0x100 * byte_of(bytes, at, 1, big) + 0x1_0000 * byte_of(
        bytes,
        at,
        2,
        big,
    ) + 0x100_0000 * byte_of(bytes, at, 3, big) + 0x1_0000_0000 * byte_of(bytes, at, 4, big)
        + 0x100_0000_0000 * byte_of(bytes, at, 5, big) + 0x1_0000_0000_0000 * byte_of(
        bytes,
        at,
        6,
        big,
    ) + 0x100_0000_0000_0000 * byte_of(bytes, at, 7, big)
}

fn read_short(bytes: &[u8], at: usize, big: bool) -> (number: usize)
    requires
        at + 2 <= bytes@.len(),
    ensures
        number == short_at(bytes@, at as int, big),
        number <= 0xffff,
{
    if big {
        0x100 * (bytes[at] as usize) + bytes[at + 1] as usize
    } else {
        bytes[at] as usize + 0x100 * (bytes[at + 1] as usize)
    }
}

fn width_of(kind: u8) -> (width: Option<usize>)
    ensures
        match width {
            Some(width) => fixed_size(kind) == Some(width as int) && width <= 8,
            None => fixed_size(kind) is None,
        },
{
    if kind == NOTHING {
        Some(0)
    } else if kind == FLAG {
        Some(1)
    } else if kind == NUMBER {
        Some(8)
    } else {
        None
    }
}

fn holds_items(kind: u8) -> (result: bool)
    ensures
        result == is_list(kind),
{
    kind == FLAG_LIST || kind == NUMBER_LIST || kind == TEXT_LIST || kind == NESTED_LIST
}

fn fits(kind: u8, size: u64, items: u64) -> (result: bool)
    ensures
        result == has_room(kind, size as int, items as int),
{
    if kind == TEXT {
        size > 0
    } else if kind == FLAG_LIST {
        items <= size
    } else if kind == NUMBER_LIST {
        size % 8 == 0 && items <= size / 8
    } else {
        true
    }
}

fn skip_marker(bytes: &[u8], at: usize, end: usize) -> (place: usize)
    requires
        at <= bytes@.len(),
        end <= bytes@.len(),
    ensures
        place == past_marker(bytes@, at as int, end as int),
        at <= place <= bytes@.len(),
{
    if at < end && end - at > HEADER && bytes[at] == MARKER {
        at + HEADER + 1
    } else {
        at
    }
}

fn skip_nested(bytes: &[u8], inner: usize, after: usize, end: usize) -> (place: Option<usize>)
    requires
        inner <= bytes@.len(),
        after <= end <= bytes@.len(),
    ensures
        match place {
            Some(place) => past_nested(bytes@, inner as int, after as int, end as int) == Some(
                place as int,
            ) && inner <= place <= bytes@.len(),
            None => past_nested(bytes@, inner as int, after as int, end as int) is None,
        },
{
    if inner > after {
        None
    } else if inner == after {
        Some(skip_marker(bytes, inner, end))
    } else if after - inner == 1 || (after - inner == HEADER + 1 && bytes[inner] == MARKER) {
        Some(after)
    } else {
        None
    }
}

fn skip_list(bytes: &[u8], inner: usize, after: usize) -> (place: Option<usize>)
    requires
        inner <= bytes@.len(),
        after <= bytes@.len(),
    ensures
        match place {
            Some(place) => past_list(bytes@, inner as int, after as int) == Some(place as int)
                && place == after,
            None => past_list(bytes@, inner as int, after as int) is None,
        },
{
    if inner == after || (inner < after && after - inner == 1 && bytes[inner] == 0) {
        Some(after)
    } else {
        None
    }
}

/// Whether an extent lies between two places.
spec fn is_between(extent: Extent, start: int, end: int) -> bool {
    extent matches Extent::Ends(last) ==> start <= last <= end
}

fn measure_tree(bytes: &[u8], start: usize, nested: bool, depth: u16) -> (extent: Extent)
    requires
        start <= bytes@.len(),
    ensures
        extent@ == tree_reach(bytes@, start as int, nested, depth as nat),
        is_between(extent, start as int, bytes@.len() as int),
    decreases depth, 2nat, 0nat,
{
    let length: usize = bytes.len();
    if length - start < HEADER || bytes[start] != MAGIC || bytes[start + 1] != 0 {
        return Extent::Broken;
    }
    let big = bytes[start + 2] >= 128;
    let size: u64 = read_number(bytes, start + 11, big);
    if size > 0xffff_ffff {
        return Extent::Over;
    }
    let body: u64 = if !nested {
        size
    } else if size > 19 {
        size - 20
    } else if size == 19 {
        0
    } else {
        return Extent::Broken;
    };
    if body > (length - start - HEADER) as u64 {
        return Extent::Broken;
    }
    let end: usize = start + HEADER + body as usize;
    match measure_fields(bytes, start + HEADER, end, big, depth) {
        Extent::Ends(_) => Extent::Ends(end),
        Extent::Broken => Extent::Broken,
        Extent::Over => Extent::Over,
    }
}

fn measure_fields(bytes: &[u8], start: usize, end: usize, big: bool, depth: u16) -> (extent:
    Extent)
    requires
        start <= end <= bytes@.len(),
    ensures
        extent@ == fields_reach(bytes@, start as int, end as int, big, depth as nat),
    decreases depth, 1nat, 0nat,
{
    let length: usize = bytes.len();
    let mut at: usize = start;
    while at < end
        invariant
            at <= length,
            end <= length,
            length == bytes@.len(),
            fields_reach(bytes@, start as int, end as int, big, depth as nat) == fields_reach(
                bytes@,
                at as int,
                end as int,
                big,
                depth as nat,
            ),
        decreases
                if at < end {
                    end - at
                } else {
                    0
                },
    {
        if length - at < HEADER {
            return Extent::Broken;
        }
        let kind = bytes[at];
        let name: usize = read_short(bytes, at + 1, big);
        let size: u64 = read_number(bytes, at + 3, big);
        let items: u64 = read_number(bytes, at + 11, big);
        if name == 0 || end - at < HEADER || end - at - HEADER < name {
            return Extent::Broken;
        }
        let data: usize = at + HEADER + name;
        if kind == MARKER {
            return Extent::Ends(data);
        }
        if let Some(width) = width_of(kind) {
            if width > end - data {
                return Extent::Broken;
            }
            at = data + width;
            continue ;
        }
        let list = holds_items(kind);
        if kind != TEXT && kind != NESTED && !list {
            return Extent::Broken;
        }
        if size > length as u64 || (list && items > length as u64) {
            return Extent::Over;
        }
        if size > (end - data) as u64 || !fits(kind, size, items) {
            return Extent::Broken;
        }
        let after: usize = data + size as usize;
        let next: Option<usize>;
        if kind == NESTED {
            if depth == 0 {
                return Extent::Over;
            }
            match measure_tree(bytes, data, true, depth - 1) {
                Extent::Ends(inner) => {
                    next = skip_nested(bytes, inner, after, end);
                },
                Extent::Broken => {
                    return Extent::Broken;
                },
                Extent::Over => {
                    return Extent::Over;
                },
            }
        } else if kind == NESTED_LIST {
            let limit: usize = if size > 0 {
                after
            } else {
                end
            };
            match measure_list(bytes, data, limit, items, depth) {
                Extent::Ends(inner) => {
                    next = if size > 0 {
                        skip_list(bytes, inner, after)
                    } else {
                        Some(inner)
                    };
                },
                Extent::Broken => {
                    return Extent::Broken;
                },
                Extent::Over => {
                    return Extent::Over;
                },
            }
        } else {
            next = Some(after);
        }
        match next {
            Some(next) => {
                at = next;
            },
            None => {
                return Extent::Broken;
            },
        }
    }
    Extent::Ends(at)
}

fn measure_list(bytes: &[u8], start: usize, end: usize, items: u64, depth: u16) -> (extent: Extent)
    requires
        start <= bytes@.len(),
        end <= bytes@.len(),
    ensures
        extent@ == list_reach(bytes@, start as int, end as int, items as nat, depth as nat),
        is_between(extent, start as int, bytes@.len() as int),
    decreases depth, 0nat, 0nat,
{
    let mut at: usize = start;
    let mut left: u64 = items;
    while left > 0
        invariant
            start <= at <= bytes@.len(),
            end <= bytes@.len(),
            list_reach(bytes@, start as int, end as int, items as nat, depth as nat) == list_reach(
                bytes@,
                at as int,
                end as int,
                left as nat,
                depth as nat,
            ),
        decreases left,
    {
        if at >= end {
            return Extent::Broken;
        }
        if depth == 0 {
            return Extent::Over;
        }
        match measure_tree(bytes, at, true, depth - 1) {
            Extent::Ends(inner) => {
                at = skip_marker(bytes, inner, end);
                left -= 1;
            },
            Extent::Broken => {
                return Extent::Broken;
            },
            Extent::Over => {
                return Extent::Over;
            },
        }
    }
    Extent::Ends(at)
}

/// Whether the bytes of a tree are few enough, and the sizes that they declare can be taken
/// up.
pub fn measured(bytes: &[u8]) -> (result: bool)
    ensures
        result == is_measured(bytes@),
{
    if bytes.len() > SIZE_LIMIT {
        return false;
    }
    match measure_tree(bytes, 0, false, NESTING_LIMIT) {
        Extent::Over => false,
        _ => true,
    }
}

} // verus!
