//! Writing types to a document.
//!
//! A primitive type becomes its canonical text. A nested type becomes an
//! object that begins with its discriminator under `type` and holds its
//! parts in a fixed order. An absent `doc` is written as a null. Writing
//! never fails.

use vstd::prelude::*;
use crate::node::{entries_view, items_view, lemma_node_view, Node, NodeModel};
use crate::primitive::{encode_primitive, primitive_text};
use crate::schema::{
    lemma_type_model, AllType, FieldModel, List, ListModel, MapModel, MapType,
    Struct, StructField, StructModel, TypeModel,
};

verus! {

/// The node of an optional text: the text, or a null.
pub open spec fn optional_text_node(text: Option<Seq<char>>) -> NodeModel {
    match text {
        Some(t) => NodeModel::Text(t),
        None => NodeModel::Null,
    }
}

/// The object of a field whose type is written as `type_node`.
pub open spec fn field_node(f: FieldModel, type_node: NodeModel) -> NodeModel {
    NodeModel::Object(
        seq![
            ("id"@, NodeModel::Int(f.id as i64)),
            ("name"@, NodeModel::Text(f.name)),
            ("required"@, NodeModel::Bool(f.required)),
            ("field_type"@, type_node),
            ("doc"@, optional_text_node(f.doc)),
        ],
    )
}

/// The object of a struct whose fields are written as `fields`.
pub open spec fn struct_node(fields: Seq<NodeModel>) -> NodeModel {
    NodeModel::Object(
        seq![("type"@, NodeModel::Text("struct"@)), ("fields"@, NodeModel::Array(fields))],
    )
}

/// The object of a list whose element type is written as `element`.
pub open spec fn list_node(l: ListModel, element: NodeModel) -> NodeModel {
    NodeModel::Object(
        seq![
            ("type"@, NodeModel::Text("list"@)),
            ("element-id"@, NodeModel::Int(l.element_id as i64)),
            ("element-required"@, NodeModel::Bool(l.element_required)),
            ("element"@, element),
        ],
    )
}

/// The object of a map whose key and value types are written as `key` and `value`.
pub open spec fn map_node(m: MapModel, key: NodeModel, value: NodeModel) -> NodeModel {
    NodeModel::Object(
        seq![
            ("type"@, NodeModel::Text("map"@)),
            ("key-id"@, NodeModel::Int(m.key_id as i64)),
            ("key"@, key),
            ("value-id"@, NodeModel::Int(m.value_id as i64)),
            ("value-required"@, NodeModel::Bool(m.value_required)),
            ("value"@, value),
        ],
    )
}

/// The node that a type is written as.
pub open spec fn encode_type_spec(t: TypeModel) -> NodeModel
    decreases t,
{
    match t {
        TypeModel::Primitive(p) => NodeModel::Text(primitive_text(p)),
        TypeModel::Struct(s) => struct_node(
            Seq::new(
                s.fields.len(),
                |i: int|
                    if 0 <= i < s.fields.len() {
                        field_node(s.fields[i], encode_type_spec(s.fields[i].field_type))
                    } else {
                        NodeModel::Null
                    },
            ),
        ),
        TypeModel::List(l) => list_node(l, encode_type_spec(*l.element)),
        TypeModel::MapType(m) => map_node(m, encode_type_spec(*m.key), encode_type_spec(*m.value)),
    }
}

/// The node that a field is written as.
pub open spec fn encode_field_spec(f: FieldModel) -> NodeModel {
    field_node(f, encode_type_spec(f.field_type))
}

/// The nodes that fields are written as, in order.
pub open spec fn encode_fields_spec(fields: Seq<FieldModel>) -> Seq<NodeModel> {
    Seq::new(fields.len(), |i: int| encode_field_spec(fields[i]))
}

/// The node that a struct is written as.
pub open spec fn encode_struct_spec(s: StructModel) -> NodeModel {
    struct_node(encode_fields_spec(s.fields))
}

/// The node that a list is written as.
pub open spec fn encode_list_spec(l: ListModel) -> NodeModel {
    list_node(l, encode_type_spec(*l.element))
}

/// The node that a map is written as.
pub open spec fn encode_map_spec(m: MapModel) -> NodeModel {
    map_node(m, encode_type_spec(*m.key), encode_type_spec(*m.value))
}

/// A nested type is written as its struct, list or map is.
pub proof fn lemma_encode_type(t: TypeModel)
    ensures
        t matches TypeModel::Struct(s) ==> encode_type_spec(t) == encode_struct_spec(s),
        t matches TypeModel::List(l) ==> encode_type_spec(t) == encode_list_spec(l),
        t matches TypeModel::MapType(m) ==> encode_type_spec(t) == encode_map_spec(m),
{
    match t {
        TypeModel::Struct(s) => {
            let entries = encode_type_spec(t)->Object_0;
            let wanted = encode_struct_spec(s)->Object_0;
            assert(entries.len() == 2 && wanted.len() == 2);
            assert(entries[1].1->Array_0 =~= encode_fields_spec(s.fields));
            assert(entries =~= wanted);
        },
        _ => {},
    }
}

fn key(text: &str) -> (k: String)
    ensures
        k@ == text@,
{
    String::from_str(text)
}

fn object(entries: Vec<(String, Node)>) -> (node: Node)
    ensures
        node@ == NodeModel::Object(entries_view(entries@)),
{
    let node = Node::Object(entries);
    proof {
        lemma_node_view(node);
    }
    node
}

fn array(items: Vec<Node>) -> (node: Node)
    ensures
        node@ == NodeModel::Array(items_view(items@)),
{
    let node = Node::Array(items);
    proof {
        lemma_node_view(node);
    }
    node
}

/// Writes a type of any variant.
pub fn encode_any_type(t: &AllType) -> (node: Node)
    ensures
        node@ == encode_type_spec(t@),
    decreases t, 0nat,
{
    proof {
        lemma_type_model(*t);
        lemma_encode_type(t@);
    }
    match t {
        AllType::Primitive(p) => Node::Text(encode_primitive(p)),
        AllType::Struct(s) => encode_struct(s),
        AllType::List(l) => encode_list(l),
        AllType::MapType(m) => encode_map(m),
    }
}

/// Writes the fields of a struct as an array, in order.
pub fn encode_fields_nodes(s: &Struct) -> (node: Node)
    ensures
        node@ == NodeModel::Array(encode_fields_spec(s@.fields)),
    decreases s, 0nat,
{
    let mut items: Vec<Node> = Vec::new();
    let mut i: usize = 0;
    while i < s.fields.len()
        invariant
            i <= s.fields.len(),
            items@.len() == i,
            forall|j: int| 0 <= j < i ==> (#[trigger] items@[j])@ == encode_field_spec(s.fields@[j]@),
        decreases s.fields.len() - i,
    {
        let item = encode_field(&s.fields[i]);
        items.push(item);
        i += 1;
    }
    assert(items_view(items@) =~= encode_fields_spec(s@.fields));
    array(items)
}

/// Writes a struct: its discriminator, then its fields in order.
pub fn encode_struct(s: &Struct) -> (node: Node)
    ensures
        node@ == encode_struct_spec(s@),
    decreases s, 1nat,
{
    let fields = encode_fields_nodes(s);
    let mut entries: Vec<(String, Node)> = Vec::new();
    entries.push((key("type"), Node::Text(key("struct"))));
    entries.push((key("fields"), fields));
    let node = object(entries);
    proof {
        assert(entries_view(entries@) =~= seq![
            ("type"@, NodeModel::Text("struct"@)),
            ("fields"@, NodeModel::Array(encode_fields_spec(s@.fields))),
        ]);
    }
    node
}

/// Writes one field of a struct.
pub fn encode_field(f: &StructField) -> (node: Node)
    ensures
        node@ == encode_field_spec(f@),
    decreases f, 0nat,
{
    let type_node = encode_any_type(&f.field_type);
    let doc = match &f.doc {
        Some(d) => Node::Text(d.clone()),
        None => Node::Null,
    };
    let mut entries: Vec<(String, Node)> = Vec::new();
    entries.push((key("id"), Node::Int(f.id as i64)));
    entries.push((key("name"), Node::Text(f.name.clone())));
    entries.push((key("required"), Node::Bool(f.required)));
    entries.push((key("field_type"), type_node));
    entries.push((key("doc"), doc));
    let node = object(entries);
    proof {
        assert(entries_view(entries@) =~= seq![
            ("id"@, NodeModel::Int(f@.id as i64)),
            ("name"@, NodeModel::Text(f@.name)),
            ("required"@, NodeModel::Bool(f@.required)),
            ("field_type"@, encode_type_spec(f@.field_type)),
            ("doc"@, optional_text_node(f@.doc)),
        ]);
    }
    node
}

/// Writes a list.
pub fn encode_list(l: &List) -> (node: Node)
    ensures
        node@ == encode_list_spec(l@),
    decreases l, 0nat,
{
    let element = encode_any_type(&*l.element);
    let mut entries: Vec<(String, Node)> = Vec::new();
    entries.push((key("type"), Node::Text(key("list"))));
    entries.push((key("element-id"), Node::Int(l.element_id as i64)));
    entries.push((key("element-required"), Node::Bool(l.element_required)));
    entries.push((key("element"), element));
    let node = object(entries);
    proof {
        assert(entries_view(entries@) =~= seq![
            ("type"@, NodeModel::Text("list"@)),
            ("element-id"@, NodeModel::Int(l@.element_id as i64)),
            ("element-required"@, NodeModel::Bool(l@.element_required)),
            ("element"@, encode_type_spec(*l@.element)),
        ]);
    }
    node
}

/// Writes a map.
pub fn encode_map(m: &MapType) -> (node: Node)
    ensures
        node@ == encode_map_spec(m@),
    decreases m, 0nat,
{
    let key_node = encode_any_type(&*m.key);
    let value_node = encode_any_type(&*m.value);
    let mut entries: Vec<(String, Node)> = Vec::new();
    entries.push((key("type"), Node::Text(key("map"))));
    entries.push((key("key-id"), Node::Int(m.key_id as i64)));
    entries.push((key("key"), key_node));
    entries.push((key("value-id"), Node::Int(m.value_id as i64)));
    entries.push((key("value-required"), Node::Bool(m.value_required)));
    entries.push((key("value"), value_node));
    let node = object(entries);
    proof {
        assert(entries_view(entries@) =~= seq![
            ("type"@, NodeModel::Text("map"@)),
            ("key-id"@, NodeModel::Int(m@.key_id as i64)),
            ("key"@, encode_type_spec(*m@.key)),
            ("value-id"@, NodeModel::Int(m@.value_id as i64)),
            ("value-required"@, NodeModel::Bool(m@.value_required)),
            ("value"@, encode_type_spec(*m@.value)),
        ]);
    }
    node
}

} // verus!
