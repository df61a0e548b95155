//! The types of a schema and their mathematical values.
//!
//! A type is a primitive or one of three nested types, struct, list and map,
//! which hold further types to any depth. A schema is a struct with an
//! identifier and, optionally, the ids of the fields that identify a row and
//! a tree of fallback names.

use vstd::prelude::*;
use crate::primitive::PrimitiveType;

verus! {

/// Any type that a field, an element, a key or a value can have.
#[derive(Debug, PartialEq, Eq)]
pub enum AllType {
    /// A primitive type.
    Primitive(PrimitiveType),
    /// A struct type.
    Struct(Struct),
    /// A list type.
    List(List),
    /// A map type.
    MapType(MapType),
}

/// A tuple of typed fields; their order is the order of the columns.
#[derive(Debug, PartialEq, Eq)]
pub struct Struct {
    /// The fields of the struct.
    pub fields: Vec<StructField>,
}

/// One named, typed field of a struct.
#[derive(Debug, PartialEq, Eq)]
pub struct StructField {
    /// The id of the field, unique in the schema.
    pub id: i32,
    /// The name of the field.
    pub name: String,
    /// Whether a value must be present.
    pub required: bool,
    /// The type of the field.
    pub field_type: AllType,
    /// A comment on the field.
    pub doc: Option<String>,
}

/// The names and types of the fields of a table.
#[derive(Debug, PartialEq, Eq)]
pub struct SchemaV2 {
    /// The id of the schema.
    pub schema_id: i32,
    /// The ids of the fields that together identify a row.
    pub identifier_field_ids: Option<Vec<i32>>,
    /// The fallback names of the fields.
    pub name_mapping: Option<NameMappings>,
    /// The fields of the schema.
    pub struct_fields: Struct,
}

/// A list of elements of one type.
#[derive(Debug, PartialEq, Eq)]
pub struct List {
    /// The id of the element field.
    pub element_id: i32,
    /// Whether every element must be present.
    pub element_required: bool,
    /// The type of the elements.
    pub element: Box<AllType>,
}

/// A collection of keys with a value each. Keys are always required.
#[derive(Debug, PartialEq, Eq)]
pub struct MapType {
    /// The id of the key field.
    pub key_id: i32,
    /// The type of the keys.
    pub key: Box<AllType>,
    /// The id of the value field.
    pub value_id: i32,
    /// Whether every value must be present.
    pub value_required: bool,
    /// The type of the values.
    pub value: Box<AllType>,
}

/// The fallback names of a schema: field ids for data that carries none.
#[derive(Debug, PartialEq, Eq)]
pub struct NameMappings {
    /// The mappings of the top-level fields.
    pub default: Vec<NameMapping>,
}

/// The fallback names of one field and of the fields nested in it.
#[derive(Debug, PartialEq, Eq)]
pub struct NameMapping {
    /// The id that a field of one of these names gets.
    pub field_id: Option<i32>,
    /// The names of the field, one at least.
    pub names: Vec<String>,
    /// The mappings of the fields nested in this one.
    pub fields: Option<Vec<NameMapping>>,
}

/// The mathematical value of an `AllType`.
pub enum TypeModel {
    Primitive(PrimitiveType),
    Struct(StructModel),
    List(ListModel),
    MapType(MapModel),
}

/// The mathematical value of a `Struct`.
pub struct StructModel {
    pub fields: Seq<FieldModel>,
}

/// The mathematical value of a `StructField`.
pub struct FieldModel {
    pub id: i32,
    pub name: Seq<char>,
    pub required: bool,
    pub field_type: TypeModel,
    pub doc: Option<Seq<char>>,
}

/// The mathematical value of a `List`.
pub struct ListModel {
    pub element_id: i32,
    pub element_required: bool,
    pub element: Box<TypeModel>,
}

/// The mathematical value of a `MapType`.
pub struct MapModel {
    pub key_id: i32,
    pub key: Box<TypeModel>,
    pub value_id: i32,
    pub value_required: bool,
    pub value: Box<TypeModel>,
}

/// The mathematical value of a `NameMapping`.
pub struct NameMappingModel {
    pub field_id: Option<i32>,
    pub names: Seq<Seq<char>>,
    pub fields: Option<Seq<NameMappingModel>>,
}

/// The mathematical value of a `NameMappings`.
pub struct NameMappingsModel {
    pub default: Seq<NameMappingModel>,
}

/// The mathematical value of a `SchemaV2`.
pub struct SchemaModel {
    pub schema_id: i32,
    pub identifier_field_ids: Option<Seq<i32>>,
    pub name_mapping: Option<NameMappingsModel>,
    pub struct_fields: StructModel,
}

/// The value of an optional text.
pub open spec fn text_model(text: Option<String>) -> Option<Seq<char>> {
    match text {
        Some(t) => Some(t@),
        None => None,
    }
}

/// The values of texts in order.
pub open spec fn texts_model(texts: Seq<String>) -> Seq<Seq<char>> {
    Seq::new(texts.len(), |i: int| texts[i]@)
}

/// The value of an optional list of ids.
pub open spec fn ids_model(ids: Option<Vec<i32>>) -> Option<Seq<i32>> {
    match ids {
        Some(v) => Some(v@),
        None => None,
    }
}

/// The mathematical value of a type.
pub open spec fn type_model(t: AllType) -> TypeModel
    decreases t,
{
    match t {
        AllType::Primitive(p) => TypeModel::Primitive(p),
        AllType::Struct(s) => TypeModel::Struct(
            StructModel {
                fields: Seq::new(
                    s.fields@.len(),
                    |i: int|
                        if 0 <= i < s.fields@.len() {
                            FieldModel {
                                id: s.fields@[i].id,
                                name: s.fields@[i].name@,
                                required: s.fields@[i].required,
                                field_type: type_model(s.fields@[i].field_type),
                                doc: text_model(s.fields@[i].doc),
                            }
                        } else {
                            arbitrary()
                        },
                ),
            },
        ),
        AllType::List(l) => TypeModel::List(
            ListModel {
                element_id: l.element_id,
                element_required: l.element_required,
                element: Box::new(type_model(*l.element)),
            },
        ),
        AllType::MapType(m) => TypeModel::MapType(
            MapModel {
                key_id: m.key_id,
                key: Box::new(type_model(*m.key)),
                value_id: m.value_id,
                value_required: m.value_required,
                value: Box::new(type_model(*m.value)),
            },
        ),
    }
}

/// The mathematical value of a field.
pub open spec fn field_model(f: StructField) -> FieldModel {
    FieldModel {
        id: f.id,
        name: f.name@,
        required: f.required,
        field_type: type_model(f.field_type),
        doc: text_model(f.doc),
    }
}

/// The values of fields in order.
pub open spec fn fields_model(fields: Seq<StructField>) -> Seq<FieldModel> {
    Seq::new(fields.len(), |i: int| field_model(fields[i]))
}

/// The mathematical value of one node of a name mapping.
pub open spec fn mapping_model(m: NameMapping) -> NameMappingModel
    decreases m,
{
    NameMappingModel {
        field_id: m.field_id,
        names: texts_model(m.names@),
        fields: match m.fields {
            Some(children) => Some(
                Seq::new(
                    children@.len(),
                    |i: int|
                        if 0 <= i < children@.len() {
                            mapping_model(children@[i])
                        } else {
                            arbitrary()
                        },
                ),
            ),
            None => None,
        },
    }
}

/// The values of name mappings in order.
pub open spec fn mappings_model(mappings: Seq<NameMapping>) -> Seq<NameMappingModel> {
    Seq::new(mappings.len(), |i: int| mapping_model(mappings[i]))
}

impl View for AllType {
    type V = TypeModel;

    open spec fn view(&self) -> TypeModel {
        type_model(*self)
    }
}

impl View for StructField {
    type V = FieldModel;

    open spec fn view(&self) -> FieldModel {
        field_model(*self)
    }
}

impl View for Struct {
    type V = StructModel;

    open spec fn view(&self) -> StructModel {
        StructModel { fields: fields_model(self.fields@) }
    }
}

impl View for List {
    type V = ListModel;

    open spec fn view(&self) -> ListModel {
        ListModel {
            element_id: self.element_id,
            element_required: self.element_required,
            element: Box::new(type_model(*self.element)),
        }
    }
}

impl View for MapType {
    type V = MapModel;

    open spec fn view(&self) -> MapModel {
        MapModel {
            key_id: self.key_id,
            key: Box::new(type_model(*self.key)),
            value_id: self.value_id,
            value_required: self.value_required,
            value: Box::new(type_model(*self.value)),
        }
    }
}

impl View for NameMapping {
    type V = NameMappingModel;

    open spec fn view(&self) -> NameMappingModel {
        mapping_model(*self)
    }
}

impl View for NameMappings {
    type V = NameMappingsModel;

    open spec fn view(&self) -> NameMappingsModel {
        NameMappingsModel { default: mappings_model(self.default@) }
    }
}

impl View for SchemaV2 {
    type V = SchemaModel;

    open spec fn view(&self) -> SchemaModel {
        SchemaModel {
            schema_id: self.schema_id,
            identifier_field_ids: ids_model(self.identifier_field_ids),
            name_mapping: match self.name_mapping {
                Some(m) => Some(m@),
                None => None,
            },
            struct_fields: self.struct_fields@,
        }
    }
}

/// The value of a nested type is made of the values of its parts.
pub proof fn lemma_type_model(t: AllType)
    ensures
        t matches AllType::Struct(s) ==> t@ == TypeModel::Struct(s@),
        t matches AllType::List(l) ==> t@ == TypeModel::List(l@),
        t matches AllType::MapType(m) ==> t@ == TypeModel::MapType(m@),
{
    match t {
        AllType::Struct(s) => {
            assert(t@->Struct_0.fields =~= s@.fields);
        },
        _ => {},
    }
}

/// The value of a name mapping is made of the values of its parts.
pub proof fn lemma_mapping_model(m: NameMapping)
    ensures
        m@.field_id == m.field_id,
        m@.names == texts_model(m.names@),
        m.fields matches Some(children) ==> m@.fields == Some(mappings_model(children@)),
        m.fields is None ==> m@.fields is None,
{
    match m.fields {
        Some(children) => {
            assert(m@.fields->0 =~= mappings_model(children@));
        },
        None => {},
    }
}

} // verus!
