//! Schemas, to and from a document.
//!
//! A schema is written as one flat object: the discriminator and the fields
//! of its struct stand beside its own keys `schema-id`,
//! `identifier-field-ids` and `name-mapping`.

use vstd::prelude::*;
use crate::decode::{decode_struct_entries, struct_entries_spec, MAX_DEPTH};
use crate::encode::{encode_fields_nodes, encode_fields_spec};
use crate::error::{outcome, DecodeError, Entity, ErrorModel};
use crate::laws::{fields_representable, lemma_fields_round_trip};
use crate::mapping::{
    decode_name_mappings, decode_name_mappings_spec, encode_name_mappings,
    encode_name_mappings_spec, law_name_mappings_round_trip, mappings_representable,
};
use crate::node::{
    as_array, as_int, as_object, entries_view, get_int, get_optional, items_view,
    lemma_lookup_one, lemma_node_view, optional, read_array, read_int, read_object,
    required_int, Node, NodeModel,
};
use crate::schema::{NameMappingsModel, SchemaModel, SchemaV2, StructModel};

verus! {

/// What decoding the items of an array as field ids yields: the ids in
/// order, or the error of the first item that is none.
pub open spec fn decode_ids_spec(items: Seq<NodeModel>) -> Result<Seq<i32>, ErrorModel>
    decreases items.len(),
{
    if items.len() == 0 {
        Ok(Seq::empty())
    } else {
        match decode_ids_spec(items.drop_last()) {
            Err(e) => Err(e),
            Ok(ids) => match as_int(items.last(), "identifier-field-ids"@, Entity::Schema) {
                Err(e) => Err(e),
                Ok(id) => Ok(ids.push(id)),
            },
        }
    }
}

/// The identifier field ids of a schema, where it has any.
pub open spec fn identifier_ids_spec(entries: Seq<(Seq<char>, NodeModel)>) -> Result<
    Option<Seq<i32>>,
    ErrorModel,
> {
    match optional(entries, "identifier-field-ids"@, Entity::Schema) {
        Err(e) => Err(e),
        Ok(None) => Ok(None),
        Ok(Some(node)) => match as_array(node, "identifier-field-ids"@, Entity::Schema) {
            Err(e) => Err(e),
            Ok(items) => match decode_ids_spec(items) {
                Err(e) => Err(e),
                Ok(ids) => Ok(Some(ids)),
            },
        },
    }
}

/// The name mappings of a schema, where it has any.
pub open spec fn name_mapping_spec(entries: Seq<(Seq<char>, NodeModel)>) -> Result<
    Option<NameMappingsModel>,
    ErrorModel,
> {
    match optional(entries, "name-mapping"@, Entity::Schema) {
        Err(e) => Err(e),
        Ok(None) => Ok(None),
        Ok(Some(node)) => match decode_name_mappings_spec(node, MAX_DEPTH as nat) {
            Err(e) => Err(e),
            Ok(mappings) => Ok(Some(mappings)),
        },
    }
}

/// What decoding a node as a schema yields: its own keys first, then the
/// struct that the same object holds.
pub open spec fn decode_schema_spec(node: NodeModel) -> Result<SchemaModel, ErrorModel> {
    match as_object(node, Entity::Schema) {
        Err(e) => Err(e),
        Ok(entries) => match required_int(entries, "schema-id"@, Entity::Schema) {
            Err(e) => Err(e),
            Ok(schema_id) => match identifier_ids_spec(entries) {
                Err(e) => Err(e),
                Ok(identifier_field_ids) => match name_mapping_spec(entries) {
                    Err(e) => Err(e),
                    Ok(name_mapping) => match struct_entries_spec(entries, MAX_DEPTH as nat) {
                        Err(e) => Err(e),
                        Ok(struct_fields) => Ok(
                            SchemaModel {
                                schema_id,
                                identifier_field_ids,
                                name_mapping,
                                struct_fields,
                            },
                        ),
                    },
                },
            },
        },
    }
}

/// The nodes of field ids, in order.
pub open spec fn ids_nodes(ids: Seq<i32>) -> Seq<NodeModel> {
    Seq::new(ids.len(), |i: int| NodeModel::Int(ids[i] as i64))
}

/// The node of optional field ids: an array, or a null.
pub open spec fn optional_ids_node(ids: Option<Seq<i32>>) -> NodeModel {
    match ids {
        Some(ids) => NodeModel::Array(ids_nodes(ids)),
        None => NodeModel::Null,
    }
}

/// The node of optional name mappings: their object, or a null.
pub open spec fn optional_mappings_node(mappings: Option<NameMappingsModel>) -> NodeModel {
    match mappings {
        Some(n) => encode_name_mappings_spec(n),
        None => NodeModel::Null,
    }
}

/// The node that a schema is written as: the discriminator, the keys of the
/// schema, then the fields, all in one object.
pub open spec fn encode_schema_spec(s: SchemaModel) -> NodeModel {
    NodeModel::Object(
        seq![
            ("type"@, NodeModel::Text("struct"@)),
            ("schema-id"@, NodeModel::Int(s.schema_id as i64)),
            ("identifier-field-ids"@, optional_ids_node(s.identifier_field_ids)),
            ("name-mapping"@, optional_mappings_node(s.name_mapping)),
            ("fields"@, NodeModel::Array(encode_fields_spec(s.struct_fields.fields))),
        ],
    )
}

/// The schemas that can be written and read back: the types of their fields
/// nest fewer than `MAX_DEPTH` levels and hold no decimal with a negative
/// precision, and their name mappings nest at most `MAX_DEPTH` levels and
/// have a name in every node.
pub open spec fn schema_representable(s: SchemaModel) -> bool {
    &&& fields_representable(s.struct_fields.fields, (MAX_DEPTH - 1) as nat)
    &&& s.name_mapping matches Some(n) ==> mappings_representable(n.default, MAX_DEPTH as nat)
}

proof fn lemma_ids_round_trip(ids: Seq<i32>)
    ensures
        decode_ids_spec(ids_nodes(ids)) == Ok::<Seq<i32>, ErrorModel>(ids),
    decreases ids.len(),
{
    let nodes = ids_nodes(ids);
    if ids.len() == 0 {
        assert(ids =~= Seq::<i32>::empty());
    } else {
        let rest = ids.drop_last();
        assert(nodes.drop_last() =~= ids_nodes(rest));
        lemma_ids_round_trip(rest);
        assert(rest.push(ids.last()) =~= ids);
    }
}

/// The round-trip law of schemas: reading what a schema was written as
/// gives the schema back.
pub proof fn law_schema_round_trip(s: SchemaModel)
    requires
        schema_representable(s),
    ensures
        decode_schema_spec(encode_schema_spec(s)) == Ok::<SchemaModel, ErrorModel>(s),
{
    reveal_strlit("type");
    reveal_strlit("schema-id");
    reveal_strlit("identifier-field-ids");
    reveal_strlit("name-mapping");
    reveal_strlit("fields");
    let entries = encode_schema_spec(s)->Object_0;
    assert(entries.len() == 5);
    assert(entries[0].0 == "type"@);
    assert(entries[1].0 == "schema-id"@);
    assert(entries[2].0 == "identifier-field-ids"@);
    assert(entries[3].0 == "name-mapping"@);
    assert(entries[4].0 == "fields"@);
    lemma_lookup_one(entries, "type"@, 0);
    lemma_lookup_one(entries, "schema-id"@, 1);
    lemma_lookup_one(entries, "identifier-field-ids"@, 2);
    lemma_lookup_one(entries, "name-mapping"@, 3);
    lemma_lookup_one(entries, "fields"@, 4);
    match s.identifier_field_ids {
        Some(ids) => {
            lemma_ids_round_trip(ids);
        },
        None => {},
    }
    match s.name_mapping {
        Some(n) => {
            law_name_mappings_round_trip(n, MAX_DEPTH as nat);
        },
        None => {},
    }
    lemma_fields_round_trip(s.struct_fields.fields, (MAX_DEPTH - 1) as nat);
    assert(identifier_ids_spec(entries) == Ok::<Option<Seq<i32>>, ErrorModel>(
        s.identifier_field_ids,
    ));
    assert(name_mapping_spec(entries) == Ok::<Option<NameMappingsModel>, ErrorModel>(
        s.name_mapping,
    ));
    assert(struct_entries_spec(entries, MAX_DEPTH as nat) == Ok::<StructModel, ErrorModel>(
        s.struct_fields,
    ));
}

/// An item that is no id fails the whole array.
proof fn lemma_ids_error(items: Seq<NodeModel>, k: int)
    requires
        0 <= k <= items.len(),
        decode_ids_spec(items.take(k)) is Err,
    ensures
        decode_ids_spec(items) == decode_ids_spec(items.take(k)),
    decreases items.len() - k,
{
    if k == items.len() {
        assert(items.take(k) =~= items);
    } else {
        let next = items.take(k + 1);
        assert(next.drop_last() =~= items.take(k));
        lemma_ids_error(items, k + 1);
    }
}

fn decode_ids(items: &Vec<Node>) -> (r: Result<Vec<i32>, DecodeError>)
    ensures
        match r {
            Ok(ids) => decode_ids_spec(items_view(items@)) == Ok::<Seq<i32>, ErrorModel>(ids@),
            Err(e) => decode_ids_spec(items_view(items@)) == Err::<Seq<i32>, ErrorModel>(e@),
        },
{
    let ghost all = items_view(items@);
    let mut ids: Vec<i32> = Vec::new();
    let mut i: usize = 0;
    while i < items.len()
        invariant
            i <= items.len(),
            all == items_view(items@),
            decode_ids_spec(all.take(i as int)) == Ok::<Seq<i32>, ErrorModel>(ids@),
        decreases items.len() - i,
    {
        proof {
            let next = all.take(i + 1);
            assert(next.drop_last() =~= all.take(i as int));
            assert(next.last() == items@[i as int]@);
        }
        let read = read_int(&items[i], "identifier-field-ids", Entity::Schema);
        match read {
            Err(e) => {
                proof {
                    lemma_ids_error(all, i + 1);
                }
                return Err(e);
            },
            Ok(id) => {
                ids.push(id);
            },
        }
        i += 1;
    }
    assert(all.take(items.len() as int) =~= all);
    Ok(ids)
}

/// Decodes a schema from the one object that holds both the keys of the
/// schema and the discriminator and fields of its struct.
pub fn decode_schema(node: &Node) -> (r: Result<SchemaV2, DecodeError>)
    ensures
        outcome(r) == decode_schema_spec(node@),
{
    let entries = read_object(node, Entity::Schema)?;
    let schema_id = get_int(entries, "schema-id", Entity::Schema)?;
    let ids_node = get_optional(entries, "identifier-field-ids", Entity::Schema)?;
    let identifier_field_ids = match ids_node {
        None => None,
        Some(n) => {
            let items = read_array(n, "identifier-field-ids", Entity::Schema)?;
            Some(decode_ids(items)?)
        },
    };
    let mappings_node = get_optional(entries, "name-mapping", Entity::Schema)?;
    let name_mapping = match mappings_node {
        None => None,
        Some(n) => Some(decode_name_mappings(n)?),
    };
    let struct_fields = decode_struct_entries(entries)?;
    Ok(SchemaV2 { schema_id, identifier_field_ids, name_mapping, struct_fields })
}

/// Writes a schema as one object. Absent identifier field ids and absent
/// name mappings are written as nulls.
pub fn encode_schema(s: &SchemaV2) -> (node: Node)
    ensures
        node@ == encode_schema_spec(s@),
{
    let ids = match &s.identifier_field_ids {
        None => Node::Null,
        Some(v) => {
            let mut items: Vec<Node> = Vec::new();
            let mut i: usize = 0;
            while i < v.len()
                invariant
                    i <= v.len(),
                    items@.len() == i,
                    forall|j: int| 0 <= j < i ==> (#[trigger] items@[j])@ == NodeModel::Int(v@[j] as i64),
                decreases v.len() - i,
            {
                items.push(Node::Int(v[i] as i64));
                i += 1;
            }
            assert(items_view(items@) =~= ids_nodes(v@));
            let node = Node::Array(items);
            proof {
                lemma_node_view(node);
            }
            node
        },
    };
    let mappings = match &s.name_mapping {
        None => Node::Null,
        Some(n) => encode_name_mappings(n),
    };
    let fields = encode_fields_nodes(&s.struct_fields);
    let mut entries: Vec<(String, Node)> = Vec::new();
    entries.push((String::from_str("type"), Node::Text(String::from_str("struct"))));
    entries.push((String::from_str("schema-id"), Node::Int(s.schema_id as i64)));
    entries.push((String::from_str("identifier-field-ids"), ids));
    entries.push((String::from_str("name-mapping"), mappings));
    entries.push((String::from_str("fields"), fields));
    let node = Node::Object(entries);
    proof {
        lemma_node_view(node);
        assert(entries_view(entries@) =~= seq![
            ("type"@, NodeModel::Text("struct"@)),
            ("schema-id"@, NodeModel::Int(s@.schema_id as i64)),
            ("identifier-field-ids"@, optional_ids_node(s@.identifier_field_ids)),
            ("name-mapping"@, optional_mappings_node(s@.name_mapping)),
            ("fields"@, NodeModel::Array(encode_fields_spec(s@.struct_fields.fields))),
        ]);
    }
    node
}

} // verus!
