//! What holds of writing and reading together.

use vstd::prelude::*;
use crate::decode::{
    decode_field_spec, decode_fields_spec, decode_list_spec, decode_map_spec, decode_struct_spec,
    decode_type_spec, list_entries_spec, map_entries_spec, struct_entries_spec, MAX_DEPTH,
};
use crate::encode::{
    encode_field_spec, encode_fields_spec, encode_list_spec, encode_map_spec, encode_struct_spec,
    encode_type_spec, field_node, lemma_encode_type, list_node, map_node, struct_node,
};
use crate::error::{failure, Entity, ErrorKind, ErrorModel};
use crate::node::{
    as_array, as_object, lemma_lookup_one, optional_text, required, required_bool, required_int,
    required_text, tagged, NodeModel,
};
use crate::primitive::{law_decoded_primitive, law_primitive_round_trip, writable};
use crate::schema::{AllType, FieldModel, ListModel, MapModel, StructModel, TypeModel};

verus! {

/// The types that can be written and read back with `depth` levels to
/// spend: they nest at most `depth` levels, and no decimal in them has a
/// negative precision.
pub open spec fn representable(t: TypeModel, depth: nat) -> bool
    decreases depth,
{
    depth > 0 && match t {
        TypeModel::Primitive(p) => writable(p),
        TypeModel::Struct(s) => forall|i: int|
            0 <= i < s.fields.len() ==> representable(
                #[trigger] s.fields[i].field_type,
                (depth - 1) as nat,
            ),
        TypeModel::List(l) => representable(*l.element, (depth - 1) as nat),
        TypeModel::MapType(m) => representable(*m.key, (depth - 1) as nat) && representable(
            *m.value,
            (depth - 1) as nat,
        ),
    }
}

/// Fields whose types are all representable with `depth` levels to spend.
pub open spec fn fields_representable(fields: Seq<FieldModel>, depth: nat) -> bool {
    forall|i: int| 0 <= i < fields.len() ==> representable(#[trigger] fields[i].field_type, depth)
}

proof fn lemma_field_entries(f: FieldModel, type_node: NodeModel)
    ensures
        ({
            let entries = field_node(f, type_node)->Object_0;
            &&& required_int(entries, "id"@, Entity::StructField) == Ok::<i32, ErrorModel>(f.id)
            &&& required_text(entries, "name"@, Entity::StructField) == Ok::<
                Seq<char>,
                ErrorModel,
            >(f.name)
            &&& required_bool(entries, "required"@, Entity::StructField) == Ok::<
                bool,
                ErrorModel,
            >(f.required)
            &&& required(entries, "field_type"@, Entity::StructField) == Ok::<
                NodeModel,
                ErrorModel,
            >(type_node)
            &&& optional_text(entries, "doc"@, Entity::StructField) == Ok::<
                Option<Seq<char>>,
                ErrorModel,
            >(f.doc)
        }),
{
    reveal_strlit("id");
    reveal_strlit("name");
    reveal_strlit("required");
    reveal_strlit("field_type");
    reveal_strlit("doc");
    let entries = field_node(f, type_node)->Object_0;
    assert(entries.len() == 5);
    assert(entries[0].0 == "id"@);
    assert(entries[1].0 == "name"@);
    assert(entries[2].0 == "required"@);
    assert(entries[3].0 == "field_type"@);
    assert(entries[4].0 == "doc"@);
    lemma_lookup_one(entries, "id"@, 0);
    lemma_lookup_one(entries, "name"@, 1);
    lemma_lookup_one(entries, "required"@, 2);
    lemma_lookup_one(entries, "field_type"@, 3);
    lemma_lookup_one(entries, "doc"@, 4);
}

proof fn lemma_struct_entries(fields: Seq<NodeModel>)
    ensures
        ({
            let entries = struct_node(fields)->Object_0;
            &&& required_text(entries, "type"@, Entity::AnyType) == Ok::<Seq<char>, ErrorModel>(
                "struct"@,
            )
            &&& tagged(entries, "struct"@, Entity::Struct) is Ok
            &&& required(entries, "fields"@, Entity::Struct) == Ok::<NodeModel, ErrorModel>(
                NodeModel::Array(fields),
            )
        }),
{
    reveal_strlit("type");
    reveal_strlit("fields");
    let entries = struct_node(fields)->Object_0;
    assert(entries.len() == 2);
    assert(entries[0].0 == "type"@);
    assert(entries[1].0 == "fields"@);
    lemma_lookup_one(entries, "type"@, 0);
    lemma_lookup_one(entries, "fields"@, 1);
}

proof fn lemma_list_entries(l: ListModel, element: NodeModel)
    ensures
        ({
            let entries = list_node(l, element)->Object_0;
            &&& required_text(entries, "type"@, Entity::AnyType) == Ok::<Seq<char>, ErrorModel>(
                "list"@,
            )
            &&& tagged(entries, "list"@, Entity::List) is Ok
            &&& required_int(entries, "element-id"@, Entity::List) == Ok::<i32, ErrorModel>(
                l.element_id,
            )
            &&& required_bool(entries, "element-required"@, Entity::List) == Ok::<
                bool,
                ErrorModel,
            >(l.element_required)
            &&& required(entries, "element"@, Entity::List) == Ok::<NodeModel, ErrorModel>(
                element,
            )
        }),
{
    reveal_strlit("type");
    reveal_strlit("element-id");
    reveal_strlit("element-required");
    reveal_strlit("element");
    let entries = list_node(l, element)->Object_0;
    assert(entries.len() == 4);
    assert(entries[0].0 == "type"@);
    assert(entries[1].0 == "element-id"@);
    assert(entries[2].0 == "element-required"@);
    assert(entries[3].0 == "element"@);
    lemma_lookup_one(entries, "type"@, 0);
    lemma_lookup_one(entries, "element-id"@, 1);
    lemma_lookup_one(entries, "element-required"@, 2);
    lemma_lookup_one(entries, "element"@, 3);
}

proof fn lemma_map_entries(m: MapModel, key: NodeModel, value: NodeModel)
    ensures
        ({
            let entries = map_node(m, key, value)->Object_0;
            &&& required_text(entries, "type"@, Entity::AnyType) == Ok::<Seq<char>, ErrorModel>(
                "map"@,
            )
            &&& tagged(entries, "map"@, Entity::MapType) is Ok
            &&& required_int(entries, "key-id"@, Entity::MapType) == Ok::<i32, ErrorModel>(
                m.key_id,
            )
            &&& required(entries, "key"@, Entity::MapType) == Ok::<NodeModel, ErrorModel>(key)
            &&& required_int(entries, "value-id"@, Entity::MapType) == Ok::<i32, ErrorModel>(
                m.value_id,
            )
            &&& required_bool(entries, "value-required"@, Entity::MapType) == Ok::<
                bool,
                ErrorModel,
            >(m.value_required)
            &&& required(entries, "value"@, Entity::MapType) == Ok::<NodeModel, ErrorModel>(
                value,
            )
        }),
{
    reveal_strlit("type");
    reveal_strlit("key-id");
    reveal_strlit("key");
    reveal_strlit("value-id");
    reveal_strlit("value-required");
    reveal_strlit("value");
    let entries = map_node(m, key, value)->Object_0;
    assert(entries.len() == 6);
    assert(entries[0].0 == "type"@);
    assert(entries[1].0 == "key-id"@);
    assert(entries[2].0 == "key"@);
    assert(entries[3].0 == "value-id"@);
    assert(entries[4].0 == "value-required"@);
    assert(entries[5].0 == "value"@);
    lemma_lookup_one(entries, "type"@, 0);
    lemma_lookup_one(entries, "key-id"@, 1);
    lemma_lookup_one(entries, "key"@, 2);
    lemma_lookup_one(entries, "value-id"@, 3);
    lemma_lookup_one(entries, "value-required"@, 4);
    lemma_lookup_one(entries, "value"@, 5);
}

/// The three discriminators differ from one another.
proof fn lemma_tags()
    ensures
        "struct"@ != "list"@,
        "struct"@ != "map"@,
        "list"@ != "map"@,
{
    reveal_strlit("struct");
    reveal_strlit("list");
    reveal_strlit("map");
    assert("struct"@.len() == 6);
    assert("list"@.len() == 4);
    assert("map"@.len() == 3);
}

/// Reading what a type was written as gives the type back, with any
/// number of levels to spend that the type is representable with.
pub proof fn law_type_round_trip_within(t: TypeModel, depth: nat)
    requires
        representable(t, depth),
    ensures
        decode_type_spec(encode_type_spec(t), depth) == Ok::<TypeModel, ErrorModel>(t),
    decreases depth, 2nat, 0nat,
{
    lemma_encode_type(t);
    lemma_tags();
    match t {
        TypeModel::Primitive(p) => {
            law_primitive_round_trip(p);
        },
        TypeModel::Struct(s) => {
            lemma_struct_entries(encode_fields_spec(s.fields));
            law_struct_round_trip_within(s, depth);
        },
        TypeModel::List(l) => {
            lemma_list_entries(l, encode_type_spec(*l.element));
            law_list_round_trip_within(l, depth);
        },
        TypeModel::MapType(m) => {
            lemma_map_entries(m, encode_type_spec(*m.key), encode_type_spec(*m.value));
            law_map_round_trip_within(m, depth);
        },
    }
}

/// Reading what a struct was written as gives the struct back.
pub proof fn law_struct_round_trip_within(s: StructModel, depth: nat)
    requires
        representable(TypeModel::Struct(s), depth),
    ensures
        struct_entries_spec(encode_struct_spec(s)->Object_0, depth) == Ok::<
            StructModel,
            ErrorModel,
        >(s),
        decode_struct_spec(encode_struct_spec(s), depth) == Ok::<StructModel, ErrorModel>(s),
    decreases depth, 1nat, 0nat,
{
    lemma_struct_entries(encode_fields_spec(s.fields));
    lemma_fields_round_trip(s.fields, (depth - 1) as nat);
}

/// Reading what fields were written as gives the fields back.
pub proof fn lemma_fields_round_trip(fields: Seq<FieldModel>, depth: nat)
    requires
        fields_representable(fields, depth),
    ensures
        decode_fields_spec(encode_fields_spec(fields), depth) == Ok::<
            Seq<FieldModel>,
            ErrorModel,
        >(fields),
    decreases depth, 4nat, fields.len(),
{
    let nodes = encode_fields_spec(fields);
    if fields.len() == 0 {
        assert(fields =~= Seq::<FieldModel>::empty());
    } else {
        let rest = fields.drop_last();
        assert(nodes.drop_last() =~= encode_fields_spec(rest));
        assert(nodes.last() == encode_field_spec(fields.last()));
        assert forall|i: int| 0 <= i < rest.len() implies representable(
            #[trigger] rest[i].field_type,
            depth,
        ) by {
            assert(rest[i] == fields[i]);
        }
        lemma_fields_round_trip(rest, depth);
        law_field_round_trip_within(fields.last(), depth);
        assert(rest.push(fields.last()) =~= fields);
    }
}

/// Reading what a field was written as gives the field back.
pub proof fn law_field_round_trip_within(f: FieldModel, depth: nat)
    requires
        representable(f.field_type, depth),
    ensures
        decode_field_spec(encode_field_spec(f), depth) == Ok::<FieldModel, ErrorModel>(f),
    decreases depth, 3nat, 0nat,
{
    lemma_field_entries(f, encode_type_spec(f.field_type));
    law_type_round_trip_within(f.field_type, depth);
}

/// Reading what a list was written as gives the list back.
pub proof fn law_list_round_trip_within(l: ListModel, depth: nat)
    requires
        representable(TypeModel::List(l), depth),
    ensures
        list_entries_spec(encode_list_spec(l)->Object_0, depth) == Ok::<ListModel, ErrorModel>(l),
        decode_list_spec(encode_list_spec(l), depth) == Ok::<ListModel, ErrorModel>(l),
    decreases depth, 1nat, 0nat,
{
    lemma_list_entries(l, encode_type_spec(*l.element));
    law_type_round_trip_within(*l.element, (depth - 1) as nat);
}

/// Reading what a map was written as gives the map back.
pub proof fn law_map_round_trip_within(m: MapModel, depth: nat)
    requires
        representable(TypeModel::MapType(m), depth),
    ensures
        map_entries_spec(encode_map_spec(m)->Object_0, depth) == Ok::<MapModel, ErrorModel>(m),
        decode_map_spec(encode_map_spec(m), depth) == Ok::<MapModel, ErrorModel>(m),
    decreases depth, 1nat, 0nat,
{
    lemma_map_entries(m, encode_type_spec(*m.key), encode_type_spec(*m.value));
    law_type_round_trip_within(*m.key, (depth - 1) as nat);
    law_type_round_trip_within(*m.value, (depth - 1) as nat);
}

/// The round-trip law: `decode_any_type` reads what `encode_any_type` wrote
/// as the type that was written, for every type that nests at most
/// `MAX_DEPTH` levels and holds no decimal with a negative precision.
pub proof fn law_round_trip(v: AllType)
    requires
        representable(v@, MAX_DEPTH as nat),
    ensures
        decode_type_spec(encode_type_spec(v@), MAX_DEPTH as nat) == Ok::<TypeModel, ErrorModel>(
            v@,
        ),
{
    law_type_round_trip_within(v@, MAX_DEPTH as nat);
}

/// Discriminators are enforced: an object whose `type` is a text other than
/// the one that a decoder asks for is refused by that decoder as a mismatch,
/// whatever else the object holds.
pub proof fn law_discriminators(entries: Seq<(Seq<char>, NodeModel)>, tag: Seq<char>, depth: nat)
    requires
        depth > 0,
        required_text(entries, "type"@, Entity::AnyType) == Ok::<Seq<char>, ErrorModel>(tag),
    ensures
        tag != "struct"@ ==> decode_struct_spec(NodeModel::Object(entries), depth) == Err::<
            StructModel,
            ErrorModel,
        >(failure(Entity::Struct, ErrorKind::DiscriminatorMismatch, tag)),
        tag != "list"@ ==> decode_list_spec(NodeModel::Object(entries), depth) == Err::<
            ListModel,
            ErrorModel,
        >(failure(Entity::List, ErrorKind::DiscriminatorMismatch, tag)),
        tag != "map"@ ==> decode_map_spec(NodeModel::Object(entries), depth) == Err::<
            MapModel,
            ErrorModel,
        >(failure(Entity::MapType, ErrorKind::DiscriminatorMismatch, tag)),
        tag != "struct"@ && tag != "list"@ && tag != "map"@ ==> decode_type_spec(
            NodeModel::Object(entries),
            depth,
        ) == Err::<TypeModel, ErrorModel>(
            failure(Entity::AnyType, ErrorKind::DiscriminatorMismatch, tag),
        ),
{
}

/// Every type that is read is representable with the levels it was read
/// with: it nests no deeper, and its decimals have a precision that their
/// text can carry.
pub proof fn law_decoded_type(node: NodeModel, depth: nat)
    requires
        decode_type_spec(node, depth) is Ok,
    ensures
        representable(decode_type_spec(node, depth)->Ok_0, depth),
    decreases depth, 2nat, 0nat,
{
    match node {
        NodeModel::Text(text) => {
            law_decoded_primitive(text);
        },
        NodeModel::Object(entries) => {
            let tag = required_text(entries, "type"@, Entity::AnyType)->Ok_0;
            let inner = (depth - 1) as nat;
            if tag == "struct"@ {
                let list = required(entries, "fields"@, Entity::Struct)->Ok_0;
                lemma_decoded_fields(as_array(list, "fields"@, Entity::Struct)->Ok_0, inner);
            } else if tag == "list"@ {
                law_decoded_type(required(entries, "element"@, Entity::List)->Ok_0, inner);
            } else if tag == "map"@ {
                law_decoded_type(required(entries, "key"@, Entity::MapType)->Ok_0, inner);
                law_decoded_type(required(entries, "value"@, Entity::MapType)->Ok_0, inner);
            }
        },
        _ => {},
    }
}

proof fn lemma_decoded_fields(items: Seq<NodeModel>, depth: nat)
    requires
        decode_fields_spec(items, depth) is Ok,
    ensures
        fields_representable(decode_fields_spec(items, depth)->Ok_0, depth),
        decode_fields_spec(items, depth)->Ok_0.len() == items.len(),
    decreases depth, 4nat, items.len(),
{
    if items.len() > 0 {
        let front = decode_fields_spec(items.drop_last(), depth);
        let field = decode_field_spec(items.last(), depth);
        assert(front is Ok && field is Ok);
        lemma_decoded_fields(items.drop_last(), depth);
        let entries = as_object(items.last(), Entity::StructField)->Ok_0;
        let type_node = required(entries, "field_type"@, Entity::StructField)->Ok_0;
        assert(decode_type_spec(type_node, depth) is Ok);
        law_decoded_type(type_node, depth);
        assert(field->Ok_0.field_type == decode_type_spec(type_node, depth)->Ok_0);
        let fields = decode_fields_spec(items, depth)->Ok_0;
        assert(fields == front->Ok_0.push(field->Ok_0));
        assert forall|i: int| 0 <= i < fields.len() implies representable(
            #[trigger] fields[i].field_type,
            depth,
        ) by {
            if i < fields.len() - 1 {
                assert(fields[i] == front->Ok_0[i]);
            }
        }
    }
}

/// Reading is stable: a type that was read, written and read again is the
/// type that was read first.
pub proof fn law_read_write_read(node: NodeModel, depth: nat)
    requires
        decode_type_spec(node, depth) is Ok,
    ensures
        decode_type_spec(encode_type_spec(decode_type_spec(node, depth)->Ok_0), depth)
            == decode_type_spec(node, depth),
{
    law_decoded_type(node, depth);
    law_type_round_trip_within(decode_type_spec(node, depth)->Ok_0, depth);
}

} // verus!
