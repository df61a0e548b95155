//! Name mappings: the fallback names of fields, to and from a document.
//!
//! One node of a mapping is an object with an optional `field-id`, the
//! names of the field under `names`, of which there is one at least, and
//! optionally the mappings of nested fields under `fields`. The mappings of
//! a schema are an object that holds the top-level nodes under `default`.

use vstd::prelude::*;
use crate::decode::MAX_DEPTH;
use crate::error::{failure, outcome, DecodeError, Entity, ErrorKind, ErrorModel};
use crate::node::{
    as_array, as_object, as_text, entries_view, get_optional, get_required, items_view,
    lemma_lookup_one, lemma_node_view, optional, optional_int, read_array, read_int, read_object,
    read_text, required, Node, NodeModel,
};
use crate::schema::{
    lemma_mapping_model, mappings_model, texts_model, NameMapping,
    NameMappingModel, NameMappings, NameMappingsModel,
};

verus! {

/// What decoding the items of an array as names yields: the texts in
/// order, or the error of the first item that is no text.
pub open spec fn decode_names_spec(items: Seq<NodeModel>) -> Result<Seq<Seq<char>>, ErrorModel>
    decreases items.len(),
{
    if items.len() == 0 {
        Ok(Seq::empty())
    } else {
        match decode_names_spec(items.drop_last()) {
            Err(e) => Err(e),
            Ok(names) => match as_text(items.last(), "names"@, Entity::NameMapping) {
                Err(e) => Err(e),
                Ok(name) => Ok(names.push(name)),
            },
        }
    }
}

/// The names of a mapping: the texts of an array that is not empty.
pub open spec fn names_spec(entries: Seq<(Seq<char>, NodeModel)>) -> Result<
    Seq<Seq<char>>,
    ErrorModel,
> {
    match required(entries, "names"@, Entity::NameMapping) {
        Err(e) => Err(e),
        Ok(node) => match as_array(node, "names"@, Entity::NameMapping) {
            Err(e) => Err(e),
            Ok(items) => match decode_names_spec(items) {
                Err(e) => Err(e),
                Ok(names) => if names.len() == 0 {
                    Err(failure(Entity::NameMapping, ErrorKind::InvalidShape, "names"@))
                } else {
                    Ok(names)
                },
            },
        },
    }
}

/// What decoding a node as one node of a name mapping yields, with `depth`
/// levels to spend.
pub open spec fn decode_mapping_spec(node: NodeModel, depth: nat) -> Result<
    NameMappingModel,
    ErrorModel,
>
    decreases depth, 1nat, 0nat,
{
    if depth == 0 {
        Err(failure(Entity::NameMapping, ErrorKind::DepthExceeded, ""@))
    } else {
        match as_object(node, Entity::NameMapping) {
            Err(e) => Err(e),
            Ok(entries) => match optional_int(entries, "field-id"@, Entity::NameMapping) {
                Err(e) => Err(e),
                Ok(field_id) => match names_spec(entries) {
                    Err(e) => Err(e),
                    Ok(names) => match optional(entries, "fields"@, Entity::NameMapping) {
                        Err(e) => Err(e),
                        Ok(None) => Ok(NameMappingModel { field_id, names, fields: None }),
                        Ok(Some(children)) => match as_array(
                            children,
                            "fields"@,
                            Entity::NameMapping,
                        ) {
                            Err(e) => Err(e),
                            Ok(items) => match decode_mappings_spec(items, (depth - 1) as nat) {
                                Err(e) => Err(e),
                                Ok(fields) => Ok(
                                    NameMappingModel { field_id, names, fields: Some(fields) },
                                ),
                            },
                        },
                    },
                },
            },
        }
    }
}

/// What decoding the items of an array as name mappings yields: the
/// mappings in order, or the error of the first item that is none.
pub open spec fn decode_mappings_spec(items: Seq<NodeModel>, depth: nat) -> Result<
    Seq<NameMappingModel>,
    ErrorModel,
>
    decreases depth, 2nat, items.len(),
{
    if items.len() == 0 {
        Ok(Seq::empty())
    } else {
        match decode_mappings_spec(items.drop_last(), depth) {
            Err(e) => Err(e),
            Ok(mappings) => match decode_mapping_spec(items.last(), depth) {
                Err(e) => Err(e),
                Ok(mapping) => Ok(mappings.push(mapping)),
            },
        }
    }
}

/// What decoding a node as the name mappings of a schema yields.
pub open spec fn decode_name_mappings_spec(node: NodeModel, depth: nat) -> Result<
    NameMappingsModel,
    ErrorModel,
> {
    match as_object(node, Entity::NameMappings) {
        Err(e) => Err(e),
        Ok(entries) => match required(entries, "default"@, Entity::NameMappings) {
            Err(e) => Err(e),
            Ok(list) => match as_array(list, "default"@, Entity::NameMappings) {
                Err(e) => Err(e),
                Ok(items) => match decode_mappings_spec(items, depth) {
                    Err(e) => Err(e),
                    Ok(default) => Ok(NameMappingsModel { default }),
                },
            },
        },
    }
}

/// The node of an optional integer: the integer, or a null.
pub open spec fn optional_int_node(i: Option<i32>) -> NodeModel {
    match i {
        Some(i) => NodeModel::Int(i as i64),
        None => NodeModel::Null,
    }
}

/// The nodes of names, in order.
pub open spec fn names_nodes(names: Seq<Seq<char>>) -> Seq<NodeModel> {
    Seq::new(names.len(), |i: int| NodeModel::Text(names[i]))
}

/// The object of a mapping whose nested mappings are written as `children`.
pub open spec fn mapping_node(m: NameMappingModel, children: NodeModel) -> NodeModel {
    NodeModel::Object(
        seq![
            ("field-id"@, optional_int_node(m.field_id)),
            ("names"@, NodeModel::Array(names_nodes(m.names))),
            ("fields"@, children),
        ],
    )
}

/// The node that one node of a name mapping is written as.
pub open spec fn encode_mapping_spec(m: NameMappingModel) -> NodeModel
    decreases m,
{
    mapping_node(
        m,
        match m.fields {
            Some(children) => NodeModel::Array(
                Seq::new(
                    children.len(),
                    |i: int|
                        if 0 <= i < children.len() {
                            encode_mapping_spec(children[i])
                        } else {
                            NodeModel::Null
                        },
                ),
            ),
            None => NodeModel::Null,
        },
    )
}

/// The nodes that name mappings are written as, in order.
pub open spec fn encode_mappings_spec(mappings: Seq<NameMappingModel>) -> Seq<NodeModel> {
    Seq::new(mappings.len(), |i: int| encode_mapping_spec(mappings[i]))
}

/// The node that the nested mappings of a mapping are written as.
pub open spec fn children_node(fields: Option<Seq<NameMappingModel>>) -> NodeModel {
    match fields {
        Some(children) => NodeModel::Array(encode_mappings_spec(children)),
        None => NodeModel::Null,
    }
}

/// The node that the name mappings of a schema are written as.
pub open spec fn encode_name_mappings_spec(n: NameMappingsModel) -> NodeModel {
    NodeModel::Object(seq![("default"@, NodeModel::Array(encode_mappings_spec(n.default)))])
}

/// A mapping is written as the object of its parts.
pub proof fn lemma_encode_mapping(m: NameMappingModel)
    ensures
        encode_mapping_spec(m) == mapping_node(m, children_node(m.fields)),
{
    match m.fields {
        Some(children) => {
            let entries = encode_mapping_spec(m)->Object_0;
            let wanted = mapping_node(m, children_node(m.fields))->Object_0;
            assert(entries.len() == 3 && wanted.len() == 3);
            assert(entries[2].1->Array_0 =~= encode_mappings_spec(children));
            assert(entries =~= wanted);
        },
        None => {},
    }
}

/// The name mappings that can be written and read back with `depth` levels
/// to spend: they nest at most `depth` levels, and every node has a name.
pub open spec fn mapping_representable(m: NameMappingModel, depth: nat) -> bool
    decreases depth,
{
    depth > 0 && m.names.len() > 0 && match m.fields {
        Some(children) => forall|i: int|
            0 <= i < children.len() ==> mapping_representable(
                #[trigger] children[i],
                (depth - 1) as nat,
            ),
        None => true,
    }
}

/// Mappings that are all representable with `depth` levels to spend.
pub open spec fn mappings_representable(mappings: Seq<NameMappingModel>, depth: nat) -> bool {
    forall|i: int| 0 <= i < mappings.len() ==> mapping_representable(#[trigger] mappings[i], depth)
}

proof fn lemma_names_round_trip(names: Seq<Seq<char>>)
    ensures
        decode_names_spec(names_nodes(names)) == Ok::<Seq<Seq<char>>, ErrorModel>(names),
    decreases names.len(),
{
    let nodes = names_nodes(names);
    if names.len() == 0 {
        assert(names =~= Seq::<Seq<char>>::empty());
    } else {
        let rest = names.drop_last();
        assert(nodes.drop_last() =~= names_nodes(rest));
        lemma_names_round_trip(rest);
        assert(rest.push(names.last()) =~= names);
    }
}

proof fn lemma_mapping_entries(m: NameMappingModel, children: NodeModel)
    ensures
        ({
            let entries = mapping_node(m, children)->Object_0;
            &&& optional_int(entries, "field-id"@, Entity::NameMapping) == Ok::<
                Option<i32>,
                ErrorModel,
            >(m.field_id)
            &&& required(entries, "names"@, Entity::NameMapping) == Ok::<NodeModel, ErrorModel>(
                NodeModel::Array(names_nodes(m.names)),
            )
            &&& children is Null ==> optional(entries, "fields"@, Entity::NameMapping) == Ok::<
                Option<NodeModel>,
                ErrorModel,
            >(None)
            &&& !(children is Null) ==> optional(entries, "fields"@, Entity::NameMapping) == Ok::<
                Option<NodeModel>,
                ErrorModel,
            >(Some(children))
        }),
{
    reveal_strlit("field-id");
    reveal_strlit("names");
    reveal_strlit("fields");
    let entries = mapping_node(m, children)->Object_0;
    assert(entries.len() == 3);
    assert(entries[0].0 == "field-id"@);
    assert(entries[1].0 == "names"@);
    assert(entries[2].0 == "fields"@);
    lemma_lookup_one(entries, "field-id"@, 0);
    lemma_lookup_one(entries, "names"@, 1);
    lemma_lookup_one(entries, "fields"@, 2);
}

/// Reading what a name mapping was written as gives the mapping back.
pub proof fn law_mapping_round_trip(m: NameMappingModel, depth: nat)
    requires
        mapping_representable(m, depth),
    ensures
        decode_mapping_spec(encode_mapping_spec(m), depth) == Ok::<NameMappingModel, ErrorModel>(
            m,
        ),
    decreases depth, 1nat, 0nat,
{
    lemma_encode_mapping(m);
    lemma_mapping_entries(m, children_node(m.fields));
    lemma_names_round_trip(m.names);
    match m.fields {
        Some(children) => {
            lemma_mappings_round_trip(children, (depth - 1) as nat);
        },
        None => {},
    }
}

proof fn lemma_mappings_round_trip(mappings: Seq<NameMappingModel>, depth: nat)
    requires
        mappings_representable(mappings, depth),
    ensures
        decode_mappings_spec(encode_mappings_spec(mappings), depth) == Ok::<
            Seq<NameMappingModel>,
            ErrorModel,
        >(mappings),
    decreases depth, 2nat, mappings.len(),
{
    let nodes = encode_mappings_spec(mappings);
    if mappings.len() == 0 {
        assert(mappings =~= Seq::<NameMappingModel>::empty());
    } else {
        let rest = mappings.drop_last();
        assert(nodes.drop_last() =~= encode_mappings_spec(rest));
        assert(nodes.last() == encode_mapping_spec(mappings.last()));
        assert forall|i: int| 0 <= i < rest.len() implies mapping_representable(
            #[trigger] rest[i],
            depth,
        ) by {
            assert(rest[i] == mappings[i]);
        }
        lemma_mappings_round_trip(rest, depth);
        law_mapping_round_trip(mappings.last(), depth);
        assert(rest.push(mappings.last()) =~= mappings);
    }
}

/// Reading what the name mappings of a schema were written as gives them back.
pub proof fn law_name_mappings_round_trip(n: NameMappingsModel, depth: nat)
    requires
        mappings_representable(n.default, depth),
    ensures
        decode_name_mappings_spec(encode_name_mappings_spec(n), depth) == Ok::<
            NameMappingsModel,
            ErrorModel,
        >(n),
{
    reveal_strlit("default");
    let entries = encode_name_mappings_spec(n)->Object_0;
    assert(entries.len() == 1);
    assert(entries[0].0 == "default"@);
    lemma_lookup_one(entries, "default"@, 0);
    lemma_mappings_round_trip(n.default, depth);
}

/// Every mapping that is read has a name at each of its nodes and nests no
/// deeper than the levels it was read with: it can be written and read back.
pub proof fn law_decoded_mapping(node: NodeModel, depth: nat)
    requires
        decode_mapping_spec(node, depth) is Ok,
    ensures
        mapping_representable(decode_mapping_spec(node, depth)->Ok_0, depth),
    decreases depth, 1nat, 0nat,
{
    let entries = as_object(node, Entity::NameMapping)->Ok_0;
    match optional(entries, "fields"@, Entity::NameMapping) {
        Ok(Some(children)) => {
            let items = as_array(children, "fields"@, Entity::NameMapping)->Ok_0;
            lemma_decoded_mappings(items, (depth - 1) as nat);
        },
        _ => {},
    }
}

proof fn lemma_decoded_mappings(items: Seq<NodeModel>, depth: nat)
    requires
        decode_mappings_spec(items, depth) is Ok,
    ensures
        mappings_representable(decode_mappings_spec(items, depth)->Ok_0, depth),
        decode_mappings_spec(items, depth)->Ok_0.len() == items.len(),
    decreases depth, 2nat, items.len(),
{
    if items.len() > 0 {
        lemma_decoded_mappings(items.drop_last(), depth);
        law_decoded_mapping(items.last(), depth);
    }
}

/// Every list of name mappings that is read can be written and read back.
pub proof fn law_decoded_name_mappings(node: NodeModel, depth: nat)
    requires
        decode_name_mappings_spec(node, depth) is Ok,
    ensures
        mappings_representable(decode_name_mappings_spec(node, depth)->Ok_0.default, depth),
{
    let entries = as_object(node, Entity::NameMappings)->Ok_0;
    let list = required(entries, "default"@, Entity::NameMappings)->Ok_0;
    let items = as_array(list, "default"@, Entity::NameMappings)->Ok_0;
    lemma_decoded_mappings(items, depth);
}

/// An item that is no name fails the whole array.
proof fn lemma_names_error(items: Seq<NodeModel>, k: int)
    requires
        0 <= k <= items.len(),
        decode_names_spec(items.take(k)) is Err,
    ensures
        decode_names_spec(items) == decode_names_spec(items.take(k)),
    decreases items.len() - k,
{
    if k == items.len() {
        assert(items.take(k) =~= items);
    } else {
        let next = items.take(k + 1);
        assert(next.drop_last() =~= items.take(k));
        lemma_names_error(items, k + 1);
    }
}

/// An item that is no mapping fails the whole array.
proof fn lemma_mappings_error(items: Seq<NodeModel>, k: int, depth: nat)
    requires
        0 <= k <= items.len(),
        decode_mappings_spec(items.take(k), depth) is Err,
    ensures
        decode_mappings_spec(items, depth) == decode_mappings_spec(items.take(k), depth),
    decreases items.len() - k,
{
    if k == items.len() {
        assert(items.take(k) =~= items);
    } else {
        let next = items.take(k + 1);
        assert(next.drop_last() =~= items.take(k));
        lemma_mappings_error(items, k + 1, depth);
    }
}

fn decode_names_items(items: &Vec<Node>) -> (r: Result<Vec<String>, DecodeError>)
    ensures
        match r {
            Ok(names) => decode_names_spec(items_view(items@)) == Ok::<
                Seq<Seq<char>>,
                ErrorModel,
            >(texts_model(names@)),
            Err(e) => decode_names_spec(items_view(items@)) == Err::<Seq<Seq<char>>, ErrorModel>(
                e@,
            ),
        },
{
    let ghost all = items_view(items@);
    let mut names: Vec<String> = Vec::new();
    let mut i: usize = 0;
    assert(texts_model(names@) =~= Seq::<Seq<char>>::empty());
    while i < items.len()
        invariant
            i <= items.len(),
            all == items_view(items@),
            decode_names_spec(all.take(i as int)) == Ok::<Seq<Seq<char>>, ErrorModel>(
                texts_model(names@),
            ),
        decreases items.len() - i,
    {
        proof {
            let next = all.take(i + 1);
            assert(next.drop_last() =~= all.take(i as int));
            assert(next.last() == items@[i as int]@);
        }
        let read = read_text(&items[i], "names", Entity::NameMapping);
        match read {
            Err(e) => {
                proof {
                    lemma_names_error(all, i + 1);
                }
                return Err(e);
            },
            Ok(name) => {
                let ghost before = names@;
                names.push(name.clone());
                assert(texts_model(names@) =~= texts_model(before).push(name@));
            },
        }
        i += 1;
    }
    assert(all.take(items.len() as int) =~= all);
    Ok(names)
}

fn decode_names(entries: &Vec<(String, Node)>) -> (r: Result<Vec<String>, DecodeError>)
    ensures
        match r {
            Ok(names) => names_spec(entries_view(entries@)) == Ok::<Seq<Seq<char>>, ErrorModel>(
                texts_model(names@),
            ),
            Err(e) => names_spec(entries_view(entries@)) == Err::<Seq<Seq<char>>, ErrorModel>(e@),
        },
{
    let node = get_required(entries, "names", Entity::NameMapping)?;
    let items = read_array(node, "names", Entity::NameMapping)?;
    let names = decode_names_items(items)?;
    if names.len() == 0 {
        return Err(DecodeError::new(Entity::NameMapping, ErrorKind::InvalidShape, "names"));
    }
    Ok(names)
}

fn decode_mapping_within(node: &Node, depth: usize) -> (r: Result<NameMapping, DecodeError>)
    ensures
        outcome(r) == decode_mapping_spec(node@, depth as nat),
    decreases depth, 1nat, 0nat,
{
    if depth == 0 {
        return Err(DecodeError::new(Entity::NameMapping, ErrorKind::DepthExceeded, ""));
    }
    let entries = read_object(node, Entity::NameMapping)?;
    let id_node = get_optional(entries, "field-id", Entity::NameMapping)?;
    let field_id = match id_node {
        None => None,
        Some(n) => Some(read_int(n, "field-id", Entity::NameMapping)?),
    };
    let names = decode_names(entries)?;
    let children = get_optional(entries, "fields", Entity::NameMapping)?;
    let fields = match children {
        None => None,
        Some(n) => {
            let items = read_array(n, "fields", Entity::NameMapping)?;
            Some(decode_mappings_within(items, depth - 1)?)
        },
    };
    let mapping = NameMapping { field_id, names, fields };
    proof {
        lemma_mapping_model(mapping);
    }
    Ok(mapping)
}

fn decode_mappings_within(items: &Vec<Node>, depth: usize) -> (r: Result<
    Vec<NameMapping>,
    DecodeError,
>)
    ensures
        match r {
            Ok(mappings) => decode_mappings_spec(items_view(items@), depth as nat) == Ok::<
                Seq<NameMappingModel>,
                ErrorModel,
            >(mappings_model(mappings@)),
            Err(e) => decode_mappings_spec(items_view(items@), depth as nat) == Err::<
                Seq<NameMappingModel>,
                ErrorModel,
            >(e@),
        },
    decreases depth, 2nat, 0nat,
{
    let ghost all = items_view(items@);
    let mut mappings: Vec<NameMapping> = Vec::new();
    let mut i: usize = 0;
    assert(mappings_model(mappings@) =~= Seq::<NameMappingModel>::empty());
    while i < items.len()
        invariant
            i <= items.len(),
            all == items_view(items@),
            decode_mappings_spec(all.take(i as int), depth as nat) == Ok::<
                Seq<NameMappingModel>,
                ErrorModel,
            >(mappings_model(mappings@)),
        decreases items.len() - i,
    {
        proof {
            let next = all.take(i + 1);
            assert(next.drop_last() =~= all.take(i as int));
            assert(next.last() == items@[i as int]@);
        }
        let decoded = decode_mapping_within(&items[i], depth);
        match decoded {
            Err(e) => {
                proof {
                    lemma_mappings_error(all, i + 1, depth as nat);
                }
                return Err(e);
            },
            Ok(mapping) => {
                let ghost before = mappings@;
                mappings.push(mapping);
                assert(mappings_model(mappings@) =~= mappings_model(before).push(mapping@));
            },
        }
        i += 1;
    }
    assert(all.take(items.len() as int) =~= all);
    Ok(mappings)
}

/// Decodes one node of a name mapping, with the mappings nested in it.
pub fn decode_name_mapping(node: &Node) -> (r: Result<NameMapping, DecodeError>)
    ensures
        outcome(r) == decode_mapping_spec(node@, MAX_DEPTH as nat),
{
    decode_mapping_within(node, MAX_DEPTH)
}

/// Decodes the name mappings of a schema: an object with the top-level
/// nodes under `default`.
pub fn decode_name_mappings(node: &Node) -> (r: Result<NameMappings, DecodeError>)
    ensures
        outcome(r) == decode_name_mappings_spec(node@, MAX_DEPTH as nat),
{
    let entries = read_object(node, Entity::NameMappings)?;
    let list = get_required(entries, "default", Entity::NameMappings)?;
    let items = read_array(list, "default", Entity::NameMappings)?;
    let default = decode_mappings_within(items, MAX_DEPTH)?;
    Ok(NameMappings { default })
}

fn object(entries: Vec<(String, Node)>) -> (node: Node)
    ensures
        node@ == NodeModel::Object(entries_view(entries@)),
{
    let node = Node::Object(entries);
    proof {
        lemma_node_view(node);
    }
    node
}

fn array(items: Vec<Node>) -> (node: Node)
    ensures
        node@ == NodeModel::Array(items_view(items@)),
{
    let node = Node::Array(items);
    proof {
        lemma_node_view(node);
    }
    node
}

fn encode_mappings(mappings: &Vec<NameMapping>) -> (node: Node)
    ensures
        node@ == NodeModel::Array(encode_mappings_spec(mappings_model(mappings@))),
    decreases mappings,
{
    let mut items: Vec<Node> = Vec::new();
    let mut i: usize = 0;
    while i < mappings.len()
        invariant
            i <= mappings.len(),
            items@.len() == i,
            forall|j: int|
                0 <= j < i ==> (#[trigger] items@[j])@ == encode_mapping_spec(mappings@[j]@),
        decreases mappings.len() - i,
    {
        let item = encode_name_mapping(&mappings[i]);
        items.push(item);
        i += 1;
    }
    assert(items_view(items@) =~= encode_mappings_spec(mappings_model(mappings@)));
    array(items)
}

/// Writes one node of a name mapping, with the mappings nested in it. An
/// absent `field-id` and absent nested mappings are written as nulls.
pub fn encode_name_mapping(m: &NameMapping) -> (node: Node)
    ensures
        node@ == encode_mapping_spec(m@),
    decreases m,
{
    proof {
        lemma_mapping_model(*m);
        lemma_encode_mapping(m@);
    }
    let id = match m.field_id {
        Some(i) => Node::Int(i as i64),
        None => Node::Null,
    };
    let mut names: Vec<Node> = Vec::new();
    let mut i: usize = 0;
    while i < m.names.len()
        invariant
            i <= m.names.len(),
            names@.len() == i,
            forall|j: int| 0 <= j < i ==> (#[trigger] names@[j])@ == NodeModel::Text(m.names@[j]@),
        decreases m.names.len() - i,
    {
        names.push(Node::Text(m.names[i].clone()));
        i += 1;
    }
    assert(items_view(names@) =~= names_nodes(m@.names));
    let children = match &m.fields {
        Some(c) => encode_mappings(c),
        None => Node::Null,
    };
    let mut entries: Vec<(String, Node)> = Vec::new();
    entries.push((String::from_str("field-id"), id));
    entries.push((String::from_str("names"), array(names)));
    entries.push((String::from_str("fields"), children));
    let node = object(entries);
    proof {
        assert(entries_view(entries@) =~= seq![
            ("field-id"@, optional_int_node(m@.field_id)),
            ("names"@, NodeModel::Array(names_nodes(m@.names))),
            ("fields"@, children_node(m@.fields)),
        ]);
    }
    node
}

/// Writes the name mappings of a schema.
pub fn encode_name_mappings(n: &NameMappings) -> (node: Node)
    ensures
        node@ == encode_name_mappings_spec(n@),
{
    let list = encode_mappings(&n.default);
    let mut entries: Vec<(String, Node)> = Vec::new();
    entries.push((String::from_str("default"), list));
    let node = object(entries);
    proof {
        assert(entries_view(entries@) =~= seq![
            ("default"@, NodeModel::Array(encode_mappings_spec(n@.default))),
        ]);
    }
    node
}

} // verus!
