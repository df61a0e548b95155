//! The tree of plain values that a schema is written to and read from.
//!
//! A document is a `Node`: nothing, a truth value, a number, a text, an
//! ordered array of nodes, or an object, which is an ordered list of keys
//! with a node each.

use vstd::prelude::*;
use crate::error::{failure, DecodeError, Entity, ErrorKind, ErrorModel};

verus! {

/// One node of a document.
#[derive(Debug, PartialEq, Eq)]
pub enum Node {
    /// No value.
    Null,
    /// True or false.
    Bool(bool),
    /// An integer of 64 bits.
    Int(i64),
    /// Any other number, kept as its text; the codec reads none.
    Real(String),
    /// A text.
    Text(String),
    /// Nodes in order.
    Array(Vec<Node>),
    /// Keys in order, each with its node.
    Object(Vec<(String, Node)>),
}

/// The mathematical value of a `Node`.
pub enum NodeModel {
    Null,
    Bool(bool),
    Int(i64),
    Real(Seq<char>),
    Text(Seq<char>),
    Array(Seq<NodeModel>),
    Object(Seq<(Seq<char>, NodeModel)>),
}

/// The mathematical value of a node: that of an array is the values of its
/// items in order, that of an object its keys in order, each with the value
/// of its node.
pub open spec fn node_model(node: Node) -> NodeModel
    decreases node,
{
    match node {
        Node::Null => NodeModel::Null,
        Node::Bool(b) => NodeModel::Bool(b),
        Node::Int(i) => NodeModel::Int(i),
        Node::Real(t) => NodeModel::Real(t@),
        Node::Text(t) => NodeModel::Text(t@),
        Node::Array(items) => NodeModel::Array(
            Seq::new(
                items@.len(),
                |i: int|
                    if 0 <= i < items@.len() {
                        node_model(items@[i])
                    } else {
                        NodeModel::Null
                    },
            ),
        ),
        Node::Object(entries) => NodeModel::Object(
            Seq::new(
                entries@.len(),
                |i: int|
                    if 0 <= i < entries@.len() {
                        (entries@[i].0@, node_model(entries@[i].1))
                    } else {
                        (Seq::empty(), NodeModel::Null)
                    },
            ),
        ),
    }
}

impl View for Node {
    type V = NodeModel;

    open spec fn view(&self) -> NodeModel {
        node_model(*self)
    }
}

/// What looking for a key in an object finds.
pub enum Lookup<T> {
    /// No entry has the key.
    Missing,
    /// More than one entry has the key.
    Duplicate,
    /// The one entry that has the key.
    One(T),
}

/// What looking for `key` among `entries` finds.
pub open spec fn lookup(entries: Seq<(Seq<char>, NodeModel)>, key: Seq<char>) -> Lookup<NodeModel>
    decreases entries.len(),
{
    if entries.len() == 0 {
        Lookup::Missing
    } else if entries.last().0 == key {
        match lookup(entries.drop_last(), key) {
            Lookup::Missing => Lookup::One(entries.last().1),
            _ => Lookup::Duplicate,
        }
    } else {
        lookup(entries.drop_last(), key)
    }
}

/// The node that a decoder must find under `key`.
pub open spec fn required(entries: Seq<(Seq<char>, NodeModel)>, key: Seq<char>, entity: Entity) -> Result<
    NodeModel,
    ErrorModel,
> {
    match lookup(entries, key) {
        Lookup::Missing => Err(failure(entity, ErrorKind::MissingKey, key)),
        Lookup::Duplicate => Err(failure(entity, ErrorKind::DuplicateKey, key)),
        Lookup::One(node) => Ok(node),
    }
}

/// The node that a decoder may find under `key`; a null counts as absent.
pub open spec fn optional(entries: Seq<(Seq<char>, NodeModel)>, key: Seq<char>, entity: Entity) -> Result<
    Option<NodeModel>,
    ErrorModel,
> {
    match lookup(entries, key) {
        Lookup::Missing => Ok(None),
        Lookup::Duplicate => Err(failure(entity, ErrorKind::DuplicateKey, key)),
        Lookup::One(NodeModel::Null) => Ok(None),
        Lookup::One(node) => Ok(Some(node)),
    }
}

/// A node read as an integer of 32 bits.
pub open spec fn as_int(node: NodeModel, key: Seq<char>, entity: Entity) -> Result<i32, ErrorModel> {
    match node {
        NodeModel::Int(i) => if i32::MIN <= i <= i32::MAX {
            Ok(i as i32)
        } else {
            Err(failure(entity, ErrorKind::NumericRange, key))
        },
        _ => Err(failure(entity, ErrorKind::InvalidShape, key)),
    }
}

/// A node read as a truth value.
pub open spec fn as_bool(node: NodeModel, key: Seq<char>, entity: Entity) -> Result<bool, ErrorModel> {
    match node {
        NodeModel::Bool(b) => Ok(b),
        _ => Err(failure(entity, ErrorKind::InvalidShape, key)),
    }
}

/// A node read as a text.
pub open spec fn as_text(node: NodeModel, key: Seq<char>, entity: Entity) -> Result<
    Seq<char>,
    ErrorModel,
> {
    match node {
        NodeModel::Text(t) => Ok(t),
        _ => Err(failure(entity, ErrorKind::InvalidShape, key)),
    }
}

/// The integer that a decoder must find under `key`.
pub open spec fn required_int(entries: Seq<(Seq<char>, NodeModel)>, key: Seq<char>, entity: Entity) -> Result<
    i32,
    ErrorModel,
> {
    match required(entries, key, entity) {
        Ok(node) => as_int(node, key, entity),
        Err(e) => Err(e),
    }
}

/// The truth value that a decoder must find under `key`.
pub open spec fn required_bool(entries: Seq<(Seq<char>, NodeModel)>, key: Seq<char>, entity: Entity) -> Result<
    bool,
    ErrorModel,
> {
    match required(entries, key, entity) {
        Ok(node) => as_bool(node, key, entity),
        Err(e) => Err(e),
    }
}

/// The text that a decoder must find under `key`.
pub open spec fn required_text(entries: Seq<(Seq<char>, NodeModel)>, key: Seq<char>, entity: Entity) -> Result<
    Seq<char>,
    ErrorModel,
> {
    match required(entries, key, entity) {
        Ok(node) => as_text(node, key, entity),
        Err(e) => Err(e),
    }
}

/// The integer that a decoder may find under `key`.
pub open spec fn optional_int(entries: Seq<(Seq<char>, NodeModel)>, key: Seq<char>, entity: Entity) -> Result<
    Option<i32>,
    ErrorModel,
> {
    match optional(entries, key, entity) {
        Ok(Some(node)) => match as_int(node, key, entity) {
            Ok(i) => Ok(Some(i)),
            Err(e) => Err(e),
        },
        Ok(None) => Ok(None),
        Err(e) => Err(e),
    }
}

/// The text that a decoder may find under `key`.
pub open spec fn optional_text(entries: Seq<(Seq<char>, NodeModel)>, key: Seq<char>, entity: Entity) -> Result<
    Option<Seq<char>>,
    ErrorModel,
> {
    match optional(entries, key, entity) {
        Ok(Some(node)) => match as_text(node, key, entity) {
            Ok(t) => Ok(Some(t)),
            Err(e) => Err(e),
        },
        Ok(None) => Ok(None),
        Err(e) => Err(e),
    }
}

/// The entries of an object, or the error for a node that is none.
pub open spec fn as_object(node: NodeModel, entity: Entity) -> Result<
    Seq<(Seq<char>, NodeModel)>,
    ErrorModel,
> {
    match node {
        NodeModel::Object(entries) => Ok(entries),
        _ => Err(failure(entity, ErrorKind::InvalidShape, ""@)),
    }
}

/// The items of an array found under `key`, or the error for a node that is none.
pub open spec fn as_array(node: NodeModel, key: Seq<char>, entity: Entity) -> Result<
    Seq<NodeModel>,
    ErrorModel,
> {
    match node {
        NodeModel::Array(items) => Ok(items),
        _ => Err(failure(entity, ErrorKind::InvalidShape, key)),
    }
}

/// The discriminator of an object must be `expected`.
pub open spec fn tagged(entries: Seq<(Seq<char>, NodeModel)>, expected: Seq<char>, entity: Entity) -> Result<
    (),
    ErrorModel,
> {
    match required_text(entries, "type"@, entity) {
        Ok(found) => if found == expected {
            Ok(())
        } else {
            Err(failure(entity, ErrorKind::DiscriminatorMismatch, found))
        },
        Err(e) => Err(e),
    }
}

/// The entries of an object seen as mathematical values.
pub open spec fn entries_view(entries: Seq<(String, Node)>) -> Seq<(Seq<char>, NodeModel)> {
    Seq::new(entries.len(), |i: int| (entries[i].0@, entries[i].1@))
}

/// The items of an array seen as mathematical values.
pub open spec fn items_view(items: Seq<Node>) -> Seq<NodeModel> {
    Seq::new(items.len(), |i: int| items[i]@)
}

/// The view of an array is the views of its items, and the view of an
/// object the views of its entries.
pub proof fn lemma_node_view(node: Node)
    ensures
        node matches Node::Array(items) ==> node@ == NodeModel::Array(items_view(items@)),
        node matches Node::Object(entries) ==> node@ == NodeModel::Object(entries_view(entries@)),
{
    match node {
        Node::Array(items) => {
            assert(node@->Array_0 =~= items_view(items@));
        },
        Node::Object(entries) => {
            assert(node@->Object_0 =~= entries_view(entries@));
        },
        _ => {},
    }
}

/// A key that no entry has is missing.
pub proof fn lemma_lookup_missing(entries: Seq<(Seq<char>, NodeModel)>, key: Seq<char>)
    requires
        forall|j: int| 0 <= j < entries.len() ==> (#[trigger] entries[j]).0 != key,
    ensures
        lookup(entries, key) == Lookup::<NodeModel>::Missing,
    decreases entries.len(),
{
    if entries.len() > 0 {
        let rest = entries.drop_last();
        assert forall|j: int| 0 <= j < rest.len() implies (#[trigger] rest[j]).0 != key by {
            assert(rest[j] == entries[j]);
        }
        lemma_lookup_missing(rest, key);
    }
}

/// A key that exactly one entry has is found with the node of that entry.
pub proof fn lemma_lookup_one(entries: Seq<(Seq<char>, NodeModel)>, key: Seq<char>, i: int)
    requires
        0 <= i < entries.len(),
        entries[i].0 == key,
        forall|j: int| 0 <= j < entries.len() && j != i ==> (#[trigger] entries[j]).0 != key,
    ensures
        lookup(entries, key) == Lookup::One(entries[i].1),
    decreases entries.len(),
{
    let rest = entries.drop_last();
    if i == entries.len() - 1 {
        assert forall|j: int| 0 <= j < rest.len() implies (#[trigger] rest[j]).0 != key by {
            assert(rest[j] == entries[j]);
        }
        lemma_lookup_missing(rest, key);
    } else {
        assert forall|j: int| 0 <= j < rest.len() && j != i implies (#[trigger] rest[j]).0
            != key by {
            assert(rest[j] == entries[j]);
        }
        assert(rest[i] == entries[i]);
        lemma_lookup_one(rest, key, i);
    }
}

/// A lookup whose finding is seen as a mathematical value.
pub open spec fn lookup_view(found: Lookup<&Node>) -> Lookup<NodeModel> {
    match found {
        Lookup::Missing => Lookup::Missing,
        Lookup::Duplicate => Lookup::Duplicate,
        Lookup::One(node) => Lookup::One(node@),
    }
}

/// Looks for `key` among the entries of an object.
pub fn find<'a>(entries: &'a Vec<(String, Node)>, key: &str) -> (found: Lookup<&'a Node>)
    ensures
        lookup_view(found) == lookup(entries_view(entries@), key@),
{
    let ghost all = entries_view(entries@);
    let mut found: Lookup<&'a Node> = Lookup::Missing;
    let mut i: usize = 0;
    while i < entries.len()
        invariant
            i <= entries.len(),
            all == entries_view(entries@),
            lookup_view(found) == lookup(all.take(i as int), key@),
        decreases entries.len() - i,
    {
        proof {
            let next = all.take(i + 1);
            assert(next.drop_last() =~= all.take(i as int));
            assert(next.last() == all[i as int]);
        }
        if *entries[i].0.as_str() == *key {
            found =
            match found {
                Lookup::Missing => Lookup::One(&entries[i].1),
                _ => Lookup::Duplicate,
            };
        }
        i += 1;
    }
    assert(all.take(entries.len() as int) =~= all);
    found
}

/// Finds the node that must stand under `key`.
pub fn get_required<'a>(entries: &'a Vec<(String, Node)>, key: &str, entity: Entity) -> (r: Result<
    &'a Node,
    DecodeError,
>)
    ensures
        match r {
            Ok(node) => required(entries_view(entries@), key@, entity) == Ok::<
                NodeModel,
                ErrorModel,
            >(node@),
            Err(e) => required(entries_view(entries@), key@, entity) == Err::<
                NodeModel,
                ErrorModel,
            >(e@),
        },
{
    match find(entries, key) {
        Lookup::Missing => Err(DecodeError::new(entity, ErrorKind::MissingKey, key)),
        Lookup::Duplicate => Err(DecodeError::new(entity, ErrorKind::DuplicateKey, key)),
        Lookup::One(node) => Ok(node),
    }
}

/// Finds the node that may stand under `key`.
pub fn get_optional<'a>(entries: &'a Vec<(String, Node)>, key: &str, entity: Entity) -> (r: Result<
    Option<&'a Node>,
    DecodeError,
>)
    ensures
        match r {
            Ok(Some(node)) => optional(entries_view(entries@), key@, entity) == Ok::<
                Option<NodeModel>,
                ErrorModel,
            >(Some(node@)),
            Ok(None) => optional(entries_view(entries@), key@, entity) == Ok::<
                Option<NodeModel>,
                ErrorModel,
            >(None),
            Err(e) => optional(entries_view(entries@), key@, entity) == Err::<
                Option<NodeModel>,
                ErrorModel,
            >(e@),
        },
{
    match find(entries, key) {
        Lookup::Missing => Ok(None),
        Lookup::Duplicate => Err(DecodeError::new(entity, ErrorKind::DuplicateKey, key)),
        Lookup::One(node) => match node {
            Node::Null => Ok(None),
            _ => Ok(Some(node)),
        },
    }
}

/// Reads a node as an integer of 32 bits.
pub fn read_int(node: &Node, key: &str, entity: Entity) -> (r: Result<i32, DecodeError>)
    ensures
        match r {
            Ok(i) => as_int(node@, key@, entity) == Ok::<i32, ErrorModel>(i),
            Err(e) => as_int(node@, key@, entity) == Err::<i32, ErrorModel>(e@),
        },
{
    match node {
        Node::Int(i) => if -0x8000_0000 <= *i && *i <= 0x7fff_ffff {
            Ok(*i as i32)
        } else {
            Err(DecodeError::new(entity, ErrorKind::NumericRange, key))
        },
        _ => Err(DecodeError::new(entity, ErrorKind::InvalidShape, key)),
    }
}

/// Reads a node as a truth value.
pub fn read_bool(node: &Node, key: &str, entity: Entity) -> (r: Result<bool, DecodeError>)
    ensures
        match r {
            Ok(b) => as_bool(node@, key@, entity) == Ok::<bool, ErrorModel>(b),
            Err(e) => as_bool(node@, key@, entity) == Err::<bool, ErrorModel>(e@),
        },
{
    match node {
        Node::Bool(b) => Ok(*b),
        _ => Err(DecodeError::new(entity, ErrorKind::InvalidShape, key)),
    }
}

/// Reads a node as a text.
pub fn read_text<'a>(node: &'a Node, key: &str, entity: Entity) -> (r: Result<&'a String, DecodeError>)
    ensures
        match r {
            Ok(t) => as_text(node@, key@, entity) == Ok::<Seq<char>, ErrorModel>(t@),
            Err(e) => as_text(node@, key@, entity) == Err::<Seq<char>, ErrorModel>(e@),
        },
{
    match node {
        Node::Text(t) => Ok(t),
        _ => Err(DecodeError::new(entity, ErrorKind::InvalidShape, key)),
    }
}

/// Reads a node as an object.
pub fn read_object<'a>(node: &'a Node, entity: Entity) -> (r: Result<
    &'a Vec<(String, Node)>,
    DecodeError,
>)
    ensures
        match r {
            Ok(entries) => as_object(node@, entity) == Ok::<
                Seq<(Seq<char>, NodeModel)>,
                ErrorModel,
            >(entries_view(entries@)),
            Err(e) => as_object(node@, entity) == Err::<Seq<(Seq<char>, NodeModel)>, ErrorModel>(
                e@,
            ),
        },
{
    proof {
        lemma_node_view(*node);
    }
    match node {
        Node::Object(entries) => Ok(entries),
        _ => Err(DecodeError::new(entity, ErrorKind::InvalidShape, "")),
    }
}

/// Reads the node under `key` as an array.
pub fn read_array<'a>(node: &'a Node, key: &str, entity: Entity) -> (r: Result<
    &'a Vec<Node>,
    DecodeError,
>)
    ensures
        match r {
            Ok(items) => as_array(node@, key@, entity) == Ok::<Seq<NodeModel>, ErrorModel>(
                items_view(items@),
            ),
            Err(e) => as_array(node@, key@, entity) == Err::<Seq<NodeModel>, ErrorModel>(e@),
        },
{
    proof {
        lemma_node_view(*node);
    }
    match node {
        Node::Array(items) => Ok(items),
        _ => Err(DecodeError::new(entity, ErrorKind::InvalidShape, key)),
    }
}

/// Finds and reads the integer that must stand under `key`.
pub fn get_int(entries: &Vec<(String, Node)>, key: &str, entity: Entity) -> (r: Result<
    i32,
    DecodeError,
>)
    ensures
        match r {
            Ok(i) => required_int(entries_view(entries@), key@, entity) == Ok::<i32, ErrorModel>(i),
            Err(e) => required_int(entries_view(entries@), key@, entity) == Err::<i32, ErrorModel>(
                e@,
            ),
        },
{
    let node = get_required(entries, key, entity)?;
    read_int(node, key, entity)
}

/// Finds and reads the truth value that must stand under `key`.
pub fn get_bool(entries: &Vec<(String, Node)>, key: &str, entity: Entity) -> (r: Result<
    bool,
    DecodeError,
>)
    ensures
        match r {
            Ok(b) => required_bool(entries_view(entries@), key@, entity) == Ok::<bool, ErrorModel>(
                b,
            ),
            Err(e) => required_bool(entries_view(entries@), key@, entity) == Err::<
                bool,
                ErrorModel,
            >(e@),
        },
{
    let node = get_required(entries, key, entity)?;
    read_bool(node, key, entity)
}

/// Finds and reads the text that must stand under `key`.
pub fn get_text<'a>(entries: &'a Vec<(String, Node)>, key: &str, entity: Entity) -> (r: Result<
    &'a String,
    DecodeError,
>)
    ensures
        match r {
            Ok(t) => required_text(entries_view(entries@), key@, entity) == Ok::<
                Seq<char>,
                ErrorModel,
            >(t@),
            Err(e) => required_text(entries_view(entries@), key@, entity) == Err::<
                Seq<char>,
                ErrorModel,
            >(e@),
        },
{
    let node = get_required(entries, key, entity)?;
    read_text(node, key, entity)
}

/// Checks that the discriminator of an object is `expected`.
pub fn check_tag(entries: &Vec<(String, Node)>, expected: &str, entity: Entity) -> (r: Result<
    (),
    DecodeError,
>)
    ensures
        match r {
            Ok(_) => tagged(entries_view(entries@), expected@, entity) is Ok,
            Err(e) => tagged(entries_view(entries@), expected@, entity) == Err::<(), ErrorModel>(
                e@,
            ),
        },
{
    let found = get_text(entries, "type", entity)?;
    if *found.as_str() == *expected {
        Ok(())
    } else {
        Err(DecodeError::new(entity, ErrorKind::DiscriminatorMismatch, found.as_str()))
    }
}

} // verus!
