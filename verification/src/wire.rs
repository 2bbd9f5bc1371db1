//! The nvtree values that requests and responses travel as, and what is known
//! of the `nvtree` crate.

use nvtree::{Nvtpair, Nvtree};
use vstd::prelude::*;

use crate::extent;
use crate::text;

verus! {

// ---------------------------------------------------------------------------
// What a tree holds
// ---------------------------------------------------------------------------

/// The value of a field.
pub enum Value {
    Flag(bool),
    Number(u64),
    Text(Seq<char>),
    Texts(Seq<Seq<char>>),
    Nested(Tree),
    NestedList(Seq<Tree>),
    /// A value of a type that no request or response uses.
    Other,
}

/// The contents of a tree: its flags and its fields, by their names.
pub struct Tree {
    pub flags: u8,
    pub fields: Map<Seq<char>, Value>,
}

/// The fields of a tree.
pub uninterp spec fn tree_fields(tree: Nvtree) -> Map<Seq<char>, Value>;

/// The flags of a tree.
pub uninterp spec fn tree_flags(tree: Nvtree) -> u8;

/// The field that a pair holds.
pub uninterp spec fn pair_field(pair: Nvtpair) -> (Seq<char>, Value);

/// The contents of a tree.
pub open spec fn content(tree: Nvtree) -> Tree {
    Tree { flags: tree_flags(tree), fields: tree_fields(tree) }
}

/// The contents of a list of trees.
pub open spec fn contents(trees: Seq<Nvtree>) -> Seq<Tree> {
    trees.map_values(|tree: Nvtree| content(tree))
}

/// The tree without fields.
pub open spec fn empty_tree() -> Tree {
    Tree { flags: 0, fields: Map::empty() }
}

/// The value of the field with this name.
pub open spec fn get(tree: Tree, name: Seq<char>) -> Option<Value> {
    if tree.fields.dom().contains(name) {
        Some(tree.fields[name])
    } else {
        None
    }
}

/// The tree with a field added, in place of an earlier one with its name.
pub open spec fn put(tree: Tree, name: Seq<char>, value: Value) -> Tree {
    Tree { flags: tree.flags, fields: tree.fields.insert(name, value) }
}

/// A field that was added is found again, and no other field changes.
pub proof fn law_put_get(tree: Tree, name: Seq<char>, value: Value, other: Seq<char>)
    ensures
        put(tree, name, value).flags == tree.flags,
        get(put(tree, name, value), name) == Some(value),
        other != name ==> get(put(tree, name, value), other) == get(tree, other),
{
}

// ---------------------------------------------------------------------------
// Building trees
// ---------------------------------------------------------------------------

/// `nvtree::Nvtree`, a set of named values.
#[verifier::external_type_specification]
#[verifier::external_body]
pub struct ExNvtree(Nvtree);

/// `nvtree::Nvtpair`, one named value.
#[verifier::external_type_specification]
#[verifier::external_body]
pub struct ExNvtpair(Nvtpair);

/// `nvtree::nvtree_create` gives a tree with these flags and no fields.
pub assume_specification[ nvtree::nvtree_create ](flags: u8) -> (tree: Nvtree)
    ensures
        tree_flags(tree) == flags,
        tree_fields(tree) == empty_tree().fields,
;

/// `nvtree::nvtree_string` makes a pair of a name and a text.
pub assume_specification[ nvtree::nvtree_string ](name: &str, value: &str) -> (pair: Nvtpair)
    ensures
        pair_field(pair) == (name@, Value::Text(value@)),
;

/// `nvtree::nvtree_number` makes a pair of a name and a number.
pub assume_specification[ nvtree::nvtree_number ](name: &str, value: u64) -> (pair: Nvtpair)
    ensures
        pair_field(pair) == (name@, Value::Number(value)),
;

/// `nvtree::nvtree_bool` makes a pair of a name and a truth value.
pub assume_specification[ nvtree::nvtree_bool ](name: &str, value: bool) -> (pair: Nvtpair)
    ensures
        pair_field(pair) == (name@, Value::Flag(value)),
;

/// A `nvtree::Nvtpair` of a name and a list of texts.
#[verifier::external_body]
pub(crate) fn text_list(name: &str, value: Vec<String>) -> (pair: Nvtpair)
    ensures
        pair_field(pair) == (name@, Value::Texts(text::views(value@))),
{
    Nvtpair { flags: 0, name: name.to_string(), value: nvtree::Nvtvalue::StringArray(value) }
}

/// A `nvtree::Nvtpair` of a name and a tree.
#[verifier::external_body]
pub(crate) fn nested(name: &str, value: Nvtree) -> (pair: Nvtpair)
    ensures
        pair_field(pair) == (name@, Value::Nested(content(value))),
{
    Nvtpair { flags: 0, name: name.to_string(), value: nvtree::Nvtvalue::Nested(Box::new(value)) }
}

/// A `nvtree::Nvtpair` of a name and a list of trees.
#[verifier::external_body]
pub(crate) fn nested_list(name: &str, value: Vec<Nvtree>) -> (pair: Nvtpair)
    ensures
        pair_field(pair) == (name@, Value::NestedList(contents(value@))),
{
    Nvtpair { flags: 0, name: name.to_string(), value: nvtree::Nvtvalue::NestedArray(value) }
}

/// `nvtree::nvtree_add` puts a pair into a tree. An earlier pair with its name makes room
/// for it, and is handed back.
pub assume_specification[ nvtree::nvtree_add ](root: &mut Nvtree, pair: Nvtpair) -> (replaced:
    Option<Nvtpair>)
    ensures
        content(*final(root)) == put(content(*old(root)), pair_field(pair).0, pair_field(pair).1),
        match replaced {
            Some(earlier) => get(content(*old(root)), pair_field(pair).0) == Some(
                pair_field(earlier).1,
            ) && pair_field(earlier).0 == pair_field(pair).0,
            None => get(content(*old(root)), pair_field(pair).0) is None,
        },
;

/// A value found in a tree.
pub enum Found<'a> {
    Flag(bool),
    Number(u64),
    Text(&'a String),
    Texts(&'a Vec<String>),
    Nested(&'a Nvtree),
    NestedList(&'a Vec<Nvtree>),
    Other,
}

/// The value that was found.
pub open spec fn found_value(found: Option<Found<'_>>) -> Option<Value> {
    match found {
        None => None,
        Some(Found::Flag(value)) => Some(Value::Flag(value)),
        Some(Found::Number(value)) => Some(Value::Number(value)),
        Some(Found::Text(value)) => Some(Value::Text(value@)),
        Some(Found::Texts(value)) => Some(Value::Texts(text::views(value@))),
        Some(Found::Nested(value)) => Some(Value::Nested(content(*value))),
        Some(Found::NestedList(value)) => Some(Value::NestedList(contents(value@))),
        Some(Found::Other) => Some(Value::Other),
    }
}

/// `nvtree::nvtree_find` gives the pair with a name, if there is one.
#[verifier::external_body]
pub(crate) fn find<'a>(tree: &'a Nvtree, name: &str) -> (found: Option<Found<'a>>)
    ensures
        found_value(found) == get(content(*tree), name@),
{
    nvtree::nvtree_find(tree, name).map(|pair| match &pair.value {
        nvtree::Nvtvalue::Bool(value) => Found::Flag(*value),
        nvtree::Nvtvalue::Number(value) => Found::Number(*value),
        nvtree::Nvtvalue::String(value) => Found::Text(value),
        nvtree::Nvtvalue::StringArray(value) => Found::Texts(value),
        nvtree::Nvtvalue::Nested(value) => Found::Nested(value),
        nvtree::Nvtvalue::NestedArray(value) => Found::NestedList(value),
        _ => Found::Other,
    })
}

// ---------------------------------------------------------------------------
// Bytes
// ---------------------------------------------------------------------------

/// Whether a text can be an item of a list: a NUL would end it early.
pub open spec fn is_writable(s: Seq<char>) -> bool {
    !s.contains('\0')
}

/// Whether a field can have this name: it is not too long.
pub open spec fn is_field_name(name: Seq<char>) -> bool {
    vstd::utf8::encode_utf8(name).len() < 65535
}

/// Whether a tree comes back from its bytes as it was: its names are not too long; no text
/// in a list holds a NUL; every value is of a type that is used here; its highest flag, which
/// tells the byte order, is off; and trees are not nested too deep.
pub open spec fn is_packable(tree: Tree) -> bool {
    packs(tree, extent::NESTING_LIMIT as nat)
}

/// Whether a tree comes back from its bytes as it was, with trees nested this deep.
pub open spec fn packs(tree: Tree, depth: nat) -> bool
    decreases depth, 1nat,
{
    &&& tree.flags < 128
    &&& forall|name: Seq<char>| #[trigger]
        tree.fields.dom().contains(name) ==> is_field_name(name) && packs_value(
            tree.fields[name],
            depth,
        )
}

/// Whether a value comes back from its bytes as it was, with trees nested this deep.
pub open spec fn packs_value(value: Value, depth: nat) -> bool
    decreases depth, 0nat,
{
    match value {
        Value::Flag(_) => true,
        Value::Number(_) => true,
        Value::Text(_) => true,
        Value::Texts(texts) => forall|i: int|
            0 <= i < texts.len() ==> is_writable(#[trigger] texts[i]),
        Value::Nested(tree) => depth > 0 && packs(tree, (depth - 1) as nat),
        Value::NestedList(trees) => depth > 0 && forall|i: int|
            0 <= i < trees.len() ==> packs(#[trigger] trees[i], (depth - 1) as nat),
        Value::Other => false,
    }
}

/// A tree that comes back from its bytes still does so with one more field that does.
pub proof fn lemma_put_packs(tree: Tree, depth: nat, name: Seq<char>, value: Value)
    requires
        packs(tree, depth),
        is_field_name(name),
        packs_value(value, depth),
    ensures
        packs(put(tree, name, value), depth),
{
}

/// The bytes that `nvtree::nvtree_pack` writes for a tree that comes back from them, on a
/// machine that puts the highest byte of a number first, or last.
pub uninterp spec fn packed(tree: Tree, big: bool) -> Seq<u8>;

/// The number of bytes of a tree.
pub open spec fn packed_length(tree: Tree) -> nat {
    packed(tree, false).len()
}

/// The contents of the tree that the reader within `nvtree::nvtree_unpack` makes of bytes, or
/// its error as text.
pub uninterp spec fn unpacked(bytes: Seq<u8>) -> Result<Tree, Seq<char>>;

/// Whether bytes can be read, and are read as this tree.
pub open spec fn reads_as(bytes: Seq<u8>, tree: Tree) -> bool {
    extent::is_measured(bytes) && unpacked(bytes) == Ok::<Tree, Seq<char>>(tree)
}

/// Whether bytes can be those of a tree. Of a tree that comes back from its bytes, they are
/// those that the byte order of the machine gives; their number does not depend on it, and
/// where they are few enough they are read as the tree.
pub open spec fn is_written(bytes: Seq<u8>, tree: Tree) -> bool {
    is_packable(tree) ==> {
        &&& bytes == packed(tree, false) || bytes == packed(tree, true)
        &&& bytes.len() == packed_length(tree)
        &&& bytes.len() <= extent::SIZE_LIMIT ==> reads_as(bytes, tree)
    }
}

/// `nvtree::nvtree_pack` writes a tree as bytes, in the byte order of the machine, which the
/// bytes name. The sizes in them are right, and where they are few enough
/// `nvtree::nvtree_unpack` reads them back as the tree that it was. Of a tree that does not
/// come back from its bytes, nothing is stated.
#[verifier::external_body]
pub(crate) fn pack(tree: &Nvtree) -> (bytes: Vec<u8>)
    ensures
        is_packable(content(*tree)) ==> (bytes@ == packed(content(*tree), false) || bytes@
            == packed(content(*tree), true)),
        is_written(bytes@, content(*tree)),
{
    nvtree::nvtree_pack(tree)
}

/// `nvtree::nvtree_unpack` reads a tree from bytes, or says why it cannot. It computes with
/// the sizes that the bytes declare before it compares them, so these must be within bounds.
/// On FreeBSD it hands bytes that its own reader refuses to the system's libnv; what that
/// makes of them is not stated, but that the error, where there is one, is the reader's.
#[verifier::external_body]
pub(crate) fn unpack(bytes: &[u8]) -> (result: Result<Nvtree, String>)
    requires
        extent::is_measured(bytes@),
    ensures
        match result {
            Ok(tree) => unpacked(bytes@) matches Ok(read) ==> content(tree) == read,
            Err(error) => unpacked(bytes@) == Err::<Tree, Seq<char>>(error@),
        },
{
    nvtree::nvtree_unpack(bytes).map_err(|error| format!("{:?}", error))
}

} // verus!
