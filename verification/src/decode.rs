//! Reading types from a document.
//!
//! A text node is a primitive type. An object is a nested type, told apart
//! by the text under its key `type`: `struct`, `list` or `map`. Nothing else
//! is a type. Keys that a decoder does not know are passed over; a key that
//! it reads must not occur twice.
//!
//! Every decoder counts the levels of nesting it descends and gives up below
//! `MAX_DEPTH`, so that no document can exhaust the stack.

use vstd::prelude::*;
use crate::error::{failure, outcome, DecodeError, Entity, ErrorKind, ErrorModel};
use crate::node::{
    as_array, as_object, check_tag, entries_view, get_bool, get_int, get_optional, get_required,
    get_text, items_view, optional_text, read_array, read_object, read_text, required,
    required_bool, required_int, required_text, tagged, Node, NodeModel,
};
use crate::primitive::{decode_primitive, decode_primitive_spec};
use crate::schema::{
    fields_model, lemma_type_model, AllType, FieldModel, List, ListModel, MapModel,
    MapType, Struct, StructField, StructModel, TypeModel,
};

verus! {

/// The number of levels that a type may nest: a primitive counts for one,
/// a nested type for one more than the deepest type it holds.
pub const MAX_DEPTH: usize = 128;

/// What decoding a node as a type yields, with `depth` levels to spend.
pub open spec fn decode_type_spec(node: NodeModel, depth: nat) -> Result<TypeModel, ErrorModel>
    decreases depth, 2nat, 0nat,
{
    if depth == 0 {
        Err(failure(Entity::AnyType, ErrorKind::DepthExceeded, ""@))
    } else {
        match node {
            NodeModel::Text(text) => match decode_primitive_spec(text) {
                Ok(p) => Ok(TypeModel::Primitive(p)),
                Err(e) => Err(e),
            },
            NodeModel::Object(entries) => match required_text(entries, "type"@, Entity::AnyType) {
                Ok(tag) => if tag == "struct"@ {
                    match struct_entries_spec(entries, depth) {
                        Ok(s) => Ok(TypeModel::Struct(s)),
                        Err(e) => Err(e),
                    }
                } else if tag == "list"@ {
                    match list_entries_spec(entries, depth) {
                        Ok(l) => Ok(TypeModel::List(l)),
                        Err(e) => Err(e),
                    }
                } else if tag == "map"@ {
                    match map_entries_spec(entries, depth) {
                        Ok(m) => Ok(TypeModel::MapType(m)),
                        Err(e) => Err(e),
                    }
                } else {
                    Err(failure(Entity::AnyType, ErrorKind::DiscriminatorMismatch, tag))
                },
                Err(e) => Err(e),
            },
            _ => Err(failure(Entity::AnyType, ErrorKind::InvalidShape, ""@)),
        }
    }
}

/// What decoding the entries of an object as a struct yields: the
/// discriminator must be `struct`, and `fields` an array of fields.
pub open spec fn struct_entries_spec(entries: Seq<(Seq<char>, NodeModel)>, depth: nat) -> Result<
    StructModel,
    ErrorModel,
>
    decreases depth, 1nat, 0nat,
{
    if depth == 0 {
        Err(failure(Entity::Struct, ErrorKind::DepthExceeded, ""@))
    } else {
        match tagged(entries, "struct"@, Entity::Struct) {
            Err(e) => Err(e),
            Ok(_) => match required(entries, "fields"@, Entity::Struct) {
                Err(e) => Err(e),
                Ok(node) => match as_array(node, "fields"@, Entity::Struct) {
                    Err(e) => Err(e),
                    Ok(items) => match decode_fields_spec(items, (depth - 1) as nat) {
                        Err(e) => Err(e),
                        Ok(fields) => Ok(StructModel { fields }),
                    },
                },
            },
        }
    }
}

/// What decoding the items of an array as fields yields: the fields in
/// order, or the error of the first item that is none.
pub open spec fn decode_fields_spec(items: Seq<NodeModel>, depth: nat) -> Result<
    Seq<FieldModel>,
    ErrorModel,
>
    decreases depth, 4nat, items.len(),
{
    if items.len() == 0 {
        Ok(Seq::empty())
    } else {
        match decode_fields_spec(items.drop_last(), depth) {
            Err(e) => Err(e),
            Ok(fields) => match decode_field_spec(items.last(), depth) {
                Err(e) => Err(e),
                Ok(field) => Ok(fields.push(field)),
            },
        }
    }
}

/// What decoding a node as a field yields. `id`, `name`, `required` and
/// `field_type` must be present; `doc` may be.
pub open spec fn decode_field_spec(node: NodeModel, depth: nat) -> Result<FieldModel, ErrorModel>
    decreases depth, 3nat, 0nat,
{
    match as_object(node, Entity::StructField) {
        Err(e) => Err(e),
        Ok(entries) => match required_int(entries, "id"@, Entity::StructField) {
            Err(e) => Err(e),
            Ok(id) => match required_text(entries, "name"@, Entity::StructField) {
                Err(e) => Err(e),
                Ok(name) => match required_bool(entries, "required"@, Entity::StructField) {
                    Err(e) => Err(e),
                    Ok(required_flag) => match required(
                        entries,
                        "field_type"@,
                        Entity::StructField,
                    ) {
                        Err(e) => Err(e),
                        Ok(type_node) => match decode_type_spec(type_node, depth) {
                            Err(e) => Err(e),
                            Ok(field_type) => match optional_text(
                                entries,
                                "doc"@,
                                Entity::StructField,
                            ) {
                                Err(e) => Err(e),
                                Ok(doc) => Ok(
                                    FieldModel {
                                        id,
                                        name,
                                        required: required_flag,
                                        field_type,
                                        doc,
                                    },
                                ),
                            },
                        },
                    },
                },
            },
        },
    }
}

/// What decoding the entries of an object as a list yields: the
/// discriminator must be `list`; `element-id`, `element-required` and
/// `element` must be present.
pub open spec fn list_entries_spec(entries: Seq<(Seq<char>, NodeModel)>, depth: nat) -> Result<
    ListModel,
    ErrorModel,
>
    decreases depth, 1nat, 0nat,
{
    if depth == 0 {
        Err(failure(Entity::List, ErrorKind::DepthExceeded, ""@))
    } else {
        match tagged(entries, "list"@, Entity::List) {
            Err(e) => Err(e),
            Ok(_) => match required_int(entries, "element-id"@, Entity::List) {
                Err(e) => Err(e),
                Ok(element_id) => match required_bool(entries, "element-required"@, Entity::List) {
                    Err(e) => Err(e),
                    Ok(element_required) => match required(entries, "element"@, Entity::List) {
                        Err(e) => Err(e),
                        Ok(node) => match decode_type_spec(node, (depth - 1) as nat) {
                            Err(e) => Err(e),
                            Ok(element) => Ok(
                                ListModel {
                                    element_id,
                                    element_required,
                                    element: Box::new(element),
                                },
                            ),
                        },
                    },
                },
            },
        }
    }
}

/// What decoding the entries of an object as a map yields: the
/// discriminator must be `map`; `key-id`, `key`, `value-id`,
/// `value-required` and `value` must be present.
pub open spec fn map_entries_spec(entries: Seq<(Seq<char>, NodeModel)>, depth: nat) -> Result<
    MapModel,
    ErrorModel,
>
    decreases depth, 1nat, 0nat,
{
    if depth == 0 {
        Err(failure(Entity::MapType, ErrorKind::DepthExceeded, ""@))
    } else {
        match tagged(entries, "map"@, Entity::MapType) {
            Err(e) => Err(e),
            Ok(_) => match required_int(entries, "key-id"@, Entity::MapType) {
                Err(e) => Err(e),
                Ok(key_id) => match required(entries, "key"@, Entity::MapType) {
                    Err(e) => Err(e),
                    Ok(key_node) => match decode_type_spec(key_node, (depth - 1) as nat) {
                        Err(e) => Err(e),
                        Ok(key) => match required_int(entries, "value-id"@, Entity::MapType) {
                            Err(e) => Err(e),
                            Ok(value_id) => match required_bool(
                                entries,
                                "value-required"@,
                                Entity::MapType,
                            ) {
                                Err(e) => Err(e),
                                Ok(value_required) => match required(
                                    entries,
                                    "value"@,
                                    Entity::MapType,
                                ) {
                                    Err(e) => Err(e),
                                    Ok(value_node) => match decode_type_spec(
                                        value_node,
                                        (depth - 1) as nat,
                                    ) {
                                        Err(e) => Err(e),
                                        Ok(value) => Ok(
                                            MapModel {
                                                key_id,
                                                key: Box::new(key),
                                                value_id,
                                                value_required,
                                                value: Box::new(value),
                                            },
                                        ),
                                    },
                                },
                            },
                        },
                    },
                },
            },
        }
    }
}

/// What decoding a node as a struct yields.
pub open spec fn decode_struct_spec(node: NodeModel, depth: nat) -> Result<StructModel, ErrorModel> {
    match as_object(node, Entity::Struct) {
        Err(e) => Err(e),
        Ok(entries) => struct_entries_spec(entries, depth),
    }
}

/// What decoding a node as a list yields.
pub open spec fn decode_list_spec(node: NodeModel, depth: nat) -> Result<ListModel, ErrorModel> {
    match as_object(node, Entity::List) {
        Err(e) => Err(e),
        Ok(entries) => list_entries_spec(entries, depth),
    }
}

/// What decoding a node as a map yields.
pub open spec fn decode_map_spec(node: NodeModel, depth: nat) -> Result<MapModel, ErrorModel> {
    match as_object(node, Entity::MapType) {
        Err(e) => Err(e),
        Ok(entries) => map_entries_spec(entries, depth),
    }
}

fn decode_type_within(node: &Node, depth: usize) -> (r: Result<AllType, DecodeError>)
    ensures
        outcome(r) == decode_type_spec(node@, depth as nat),
    decreases depth, 2nat, 0nat,
{
    if depth == 0 {
        return Err(DecodeError::new(Entity::AnyType, ErrorKind::DepthExceeded, ""));
    }
    match node {
        Node::Text(text) => {
            let p = decode_primitive(text.as_str())?;
            Ok(AllType::Primitive(p))
        },
        Node::Object(entries) => {
            proof {
                crate::node::lemma_node_view(*node);
            }
            let tag = get_text(entries, "type", Entity::AnyType)?;
            if *tag.as_str() == *"struct" {
                let s = struct_entries_within(entries, depth)?;
                proof {
                    lemma_type_model(AllType::Struct(s));
                }
                Ok(AllType::Struct(s))
            } else if *tag.as_str() == *"list" {
                let l = list_entries_within(entries, depth)?;
                proof {
                    lemma_type_model(AllType::List(l));
                }
                Ok(AllType::List(l))
            } else if *tag.as_str() == *"map" {
                let m = map_entries_within(entries, depth)?;
                proof {
                    lemma_type_model(AllType::MapType(m));
                }
                Ok(AllType::MapType(m))
            } else {
                Err(
                    DecodeError::new(
                        Entity::AnyType,
                        ErrorKind::DiscriminatorMismatch,
                        tag.as_str(),
                    ),
                )
            }
        },
        _ => Err(DecodeError::new(Entity::AnyType, ErrorKind::InvalidShape, "")),
    }
}

fn struct_entries_within(entries: &Vec<(String, Node)>, depth: usize) -> (r: Result<
    Struct,
    DecodeError,
>)
    ensures
        outcome(r) == struct_entries_spec(entries_view(entries@), depth as nat),
    decreases depth, 1nat, 0nat,
{
    if depth == 0 {
        return Err(DecodeError::new(Entity::Struct, ErrorKind::DepthExceeded, ""));
    }
    check_tag(entries, "struct", Entity::Struct)?;
    let node = get_required(entries, "fields", Entity::Struct)?;
    let items = read_array(node, "fields", Entity::Struct)?;
    let fields = decode_fields_within(items, depth - 1)?;
    Ok(Struct { fields })
}

fn decode_fields_within(items: &Vec<Node>, depth: usize) -> (r: Result<
    Vec<StructField>,
    DecodeError,
>)
    ensures
        match r {
            Ok(fields) => decode_fields_spec(items_view(items@), depth as nat) == Ok::<
                Seq<FieldModel>,
                ErrorModel,
            >(fields_model(fields@)),
            Err(e) => decode_fields_spec(items_view(items@), depth as nat) == Err::<
                Seq<FieldModel>,
                ErrorModel,
            >(e@),
        },
    decreases depth, 4nat, 0nat,
{
    let ghost all = items_view(items@);
    let mut fields: Vec<StructField> = Vec::new();
    let mut i: usize = 0;
    assert(fields_model(fields@) =~= Seq::<FieldModel>::empty());
    while i < items.len()
        invariant
            i <= items.len(),
            all == items_view(items@),
            decode_fields_spec(all.take(i as int), depth as nat) == Ok::<
                Seq<FieldModel>,
                ErrorModel,
            >(fields_model(fields@)),
        decreases items.len() - i,
    {
        proof {
            let next = all.take(i + 1);
            assert(next.drop_last() =~= all.take(i as int));
            assert(next.last() == items@[i as int]@);
        }
        let decoded = decode_field_within(&items[i], depth);
        match decoded {
            Err(e) => {
                proof {
                    lemma_fields_error(all, i + 1, depth as nat);
                }
                return Err(e);
            },
            Ok(field) => {
                let ghost before = fields@;
                fields.push(field);
                assert(fields_model(fields@) =~= fields_model(before).push(field@));
            },
        }
        i += 1;
    }
    assert(all.take(items.len() as int) =~= all);
    Ok(fields)
}

/// An item that is no field fails the whole array.
proof fn lemma_fields_error(items: Seq<NodeModel>, k: int, depth: nat)
    requires
        0 <= k <= items.len(),
        decode_fields_spec(items.take(k), depth) is Err,
    ensures
        decode_fields_spec(items, depth) == decode_fields_spec(items.take(k), depth),
    decreases items.len() - k,
{
    if k == items.len() {
        assert(items.take(k) =~= items);
    } else {
        let next = items.take(k + 1);
        assert(next.drop_last() =~= items.take(k));
        lemma_fields_error(items, k + 1, depth);
    }
}

fn decode_field_within(node: &Node, depth: usize) -> (r: Result<StructField, DecodeError>)
    ensures
        outcome(r) == decode_field_spec(node@, depth as nat),
    decreases depth, 3nat, 0nat,
{
    let entries = read_object(node, Entity::StructField)?;
    let id = get_int(entries, "id", Entity::StructField)?;
    let name = get_text(entries, "name", Entity::StructField)?;
    let required_flag = get_bool(entries, "required", Entity::StructField)?;
    let type_node = get_required(entries, "field_type", Entity::StructField)?;
    let field_type = decode_type_within(type_node, depth)?;
    let doc_node = get_optional(entries, "doc", Entity::StructField)?;
    let doc = match doc_node {
        None => None,
        Some(n) => {
            let text = read_text(n, "doc", Entity::StructField)?;
            Some(text.clone())
        },
    };
    Ok(StructField { id, name: name.clone(), required: required_flag, field_type, doc })
}

fn list_entries_within(entries: &Vec<(String, Node)>, depth: usize) -> (r: Result<
    List,
    DecodeError,
>)
    ensures
        outcome(r) == list_entries_spec(entries_view(entries@), depth as nat),
    decreases depth, 1nat, 0nat,
{
    if depth == 0 {
        return Err(DecodeError::new(Entity::List, ErrorKind::DepthExceeded, ""));
    }
    check_tag(entries, "list", Entity::List)?;
    let element_id = get_int(entries, "element-id", Entity::List)?;
    let element_required = get_bool(entries, "element-required", Entity::List)?;
    let node = get_required(entries, "element", Entity::List)?;
    let element = decode_type_within(node, depth - 1)?;
    Ok(List { element_id, element_required, element: Box::new(element) })
}

fn map_entries_within(entries: &Vec<(String, Node)>, depth: usize) -> (r: Result<
    MapType,
    DecodeError,
>)
    ensures
        outcome(r) == map_entries_spec(entries_view(entries@), depth as nat),
    decreases depth, 1nat, 0nat,
{
    if depth == 0 {
        return Err(DecodeError::new(Entity::MapType, ErrorKind::DepthExceeded, ""));
    }
    check_tag(entries, "map", Entity::MapType)?;
    let key_id = get_int(entries, "key-id", Entity::MapType)?;
    let key_node = get_required(entries, "key", Entity::MapType)?;
    let key = decode_type_within(key_node, depth - 1)?;
    let value_id = get_int(entries, "value-id", Entity::MapType)?;
    let value_required = get_bool(entries, "value-required", Entity::MapType)?;
    let value_node = get_required(entries, "value", Entity::MapType)?;
    let value = decode_type_within(value_node, depth - 1)?;
    Ok(MapType { key_id, key: Box::new(key), value_id, value_required, value: Box::new(value) })
}

/// Decodes the struct that the entries of an object hold: the
/// discriminator `struct` and the fields under `fields`. A schema holds its
/// struct in this way beside its own keys.
pub fn decode_struct_entries(entries: &Vec<(String, Node)>) -> (r: Result<Struct, DecodeError>)
    ensures
        outcome(r) == struct_entries_spec(entries_view(entries@), MAX_DEPTH as nat),
{
    struct_entries_within(entries, MAX_DEPTH)
}

/// Decodes a type of any variant.
///
/// A text is read as a primitive type; an object as the nested type that
/// its discriminator names; any other node is an error, as is a type that
/// nests deeper than `MAX_DEPTH`.
pub fn decode_any_type(node: &Node) -> (r: Result<AllType, DecodeError>)
    ensures
        outcome(r) == decode_type_spec(node@, MAX_DEPTH as nat),
{
    decode_type_within(node, MAX_DEPTH)
}

/// Decodes a struct: an object whose discriminator is `struct`, with its
/// fields in order under `fields`.
pub fn decode_struct(node: &Node) -> (r: Result<Struct, DecodeError>)
    ensures
        outcome(r) == decode_struct_spec(node@, MAX_DEPTH as nat),
{
    let entries = read_object(node, Entity::Struct)?;
    struct_entries_within(entries, MAX_DEPTH)
}

/// Decodes one field of a struct.
pub fn decode_field(node: &Node) -> (r: Result<StructField, DecodeError>)
    ensures
        outcome(r) == decode_field_spec(node@, MAX_DEPTH as nat),
{
    decode_field_within(node, MAX_DEPTH)
}

/// Decodes a list: an object whose discriminator is `list`.
pub fn decode_list(node: &Node) -> (r: Result<List, DecodeError>)
    ensures
        outcome(r) == decode_list_spec(node@, MAX_DEPTH as nat),
{
    let entries = read_object(node, Entity::List)?;
    list_entries_within(entries, MAX_DEPTH)
}

/// Decodes a map: an object whose discriminator is `map`.
pub fn decode_map(node: &Node) -> (r: Result<MapType, DecodeError>)
    ensures
        outcome(r) == decode_map_spec(node@, MAX_DEPTH as nat),
{
    let entries = read_object(node, Entity::MapType)?;
    map_entries_within(entries, MAX_DEPTH)
}

} // verus!
