//! What a failed decode reports.

use vstd::prelude::*;

verus! {

/// The part of a schema that was being decoded when the failure was found.
#[derive(Clone, Copy, Debug, PartialEq, Eq, Structural)]
pub enum Entity {
    /// A primitive type written by its name.
    PrimitiveType,
    /// A decimal type as a whole.
    Decimal,
    /// The precision of a decimal type.
    Precision,
    /// The scale of a decimal type.
    Scale,
    /// A fixed-length type as a whole.
    Fixed,
    /// The length of a fixed-length type.
    Length,
    /// A type of any variant.
    AnyType,
    /// A struct type.
    Struct,
    /// A field of a struct.
    StructField,
    /// A schema.
    Schema,
    /// A list type.
    List,
    /// A map type.
    MapType,
    /// A namespace.
    Namespace,
    /// One node of a name mapping.
    NameMapping,
    /// The name mappings of a schema.
    NameMappings,
}

/// The ways in which a document can fail to be a schema.
#[derive(Clone, Copy, Debug, PartialEq, Eq, Structural)]
pub enum ErrorKind {
    /// A text that is no primitive name and fits neither the decimal nor the fixed grammar.
    MalformedPrimitive,
    /// A discriminator other than the one the decoder stands for.
    DiscriminatorMismatch,
    /// A required key that the object does not hold.
    MissingKey,
    /// A key that the object holds more than once.
    DuplicateKey,
    /// A number that does not fit the width of its slot.
    NumericRange,
    /// A node of another shape than the decoder can read.
    InvalidShape,
    /// A document nested deeper than `MAX_DEPTH`.
    DepthExceeded,
}

/// A failed decode: where it failed, why, and the text or key at fault.
#[derive(Debug, PartialEq, Eq)]
pub struct DecodeError {
    /// What was being decoded.
    pub entity: Entity,
    /// Why it could not be.
    pub kind: ErrorKind,
    /// The offending text, or the key at fault; empty where the node as a whole is at fault.
    pub detail: String,
}

/// The mathematical value of a `DecodeError`.
pub struct ErrorModel {
    pub entity: Entity,
    pub kind: ErrorKind,
    pub detail: Seq<char>,
}

impl View for DecodeError {
    type V = ErrorModel;

    open spec fn view(&self) -> ErrorModel {
        ErrorModel { entity: self.entity, kind: self.kind, detail: self.detail@ }
    }
}

/// The error of kind `kind` found in `entity`, with `detail`.
pub open spec fn failure(entity: Entity, kind: ErrorKind, detail: Seq<char>) -> ErrorModel {
    ErrorModel { entity, kind, detail }
}

/// A result seen through the views of its two sides.
pub open spec fn outcome<T: View>(r: Result<T, DecodeError>) -> Result<T::V, ErrorModel> {
    match r {
        Ok(v) => Ok(v@),
        Err(e) => Err(e@),
    }
}

/// The words for an entity in a message.
pub open spec fn entity_name(entity: Entity) -> Seq<char> {
    match entity {
        Entity::PrimitiveType => "primitive type"@,
        Entity::Decimal => "decimal"@,
        Entity::Precision => "decimal precision"@,
        Entity::Scale => "decimal scale"@,
        Entity::Fixed => "fixed"@,
        Entity::Length => "fixed length"@,
        Entity::AnyType => "type"@,
        Entity::Struct => "struct"@,
        Entity::StructField => "struct field"@,
        Entity::Schema => "schema"@,
        Entity::List => "list"@,
        Entity::MapType => "map"@,
        Entity::Namespace => "namespace"@,
        Entity::NameMapping => "name mapping"@,
        Entity::NameMappings => "name mappings"@,
    }
}

/// The words for a kind of failure in a message.
pub open spec fn kind_phrase(kind: ErrorKind) -> Seq<char> {
    match kind {
        ErrorKind::MalformedPrimitive => "invalid format"@,
        ErrorKind::DiscriminatorMismatch => "unexpected discriminator"@,
        ErrorKind::MissingKey => "missing key"@,
        ErrorKind::DuplicateKey => "duplicate key"@,
        ErrorKind::NumericRange => "number out of range"@,
        ErrorKind::InvalidShape => "invalid node"@,
        ErrorKind::DepthExceeded => "nested too deeply"@,
    }
}

/// The message of an error: entity, kind and detail, separated by `": "`.
pub open spec fn message_text(e: ErrorModel) -> Seq<char> {
    entity_name(e.entity) + ": "@ + kind_phrase(e.kind) + ": "@ + e.detail
}

fn entity_words(entity: Entity) -> (words: &'static str)
    ensures
        words@ == entity_name(entity),
{
    match entity {
        Entity::PrimitiveType => "primitive type",
        Entity::Decimal => "decimal",
        Entity::Precision => "decimal precision",
        Entity::Scale => "decimal scale",
        Entity::Fixed => "fixed",
        Entity::Length => "fixed length",
        Entity::AnyType => "type",
        Entity::Struct => "struct",
        Entity::StructField => "struct field",
        Entity::Schema => "schema",
        Entity::List => "list",
        Entity::MapType => "map",
        Entity::Namespace => "namespace",
        Entity::NameMapping => "name mapping",
        Entity::NameMappings => "name mappings",
    }
}

fn kind_words(kind: ErrorKind) -> (words: &'static str)
    ensures
        words@ == kind_phrase(kind),
{
    match kind {
        ErrorKind::MalformedPrimitive => "invalid format",
        ErrorKind::DiscriminatorMismatch => "unexpected discriminator",
        ErrorKind::MissingKey => "missing key",
        ErrorKind::DuplicateKey => "duplicate key",
        ErrorKind::NumericRange => "number out of range",
        ErrorKind::InvalidShape => "invalid node",
        ErrorKind::DepthExceeded => "nested too deeply",
    }
}

impl DecodeError {
    /// The error of kind `kind` found in `entity`, with `detail`.
    pub fn new(entity: Entity, kind: ErrorKind, detail: &str) -> (e: DecodeError)
        ensures
            e@ == failure(entity, kind, detail@),
    {
        DecodeError { entity, kind, detail: String::from_str(detail) }
    }

    /// A sentence for people: entity, kind and detail.
    pub fn message(&self) -> (text: String)
        ensures
            text@ == message_text(self@),
    {
        let mut text = String::from_str(entity_words(self.entity));
        text.append(": ");
        text.append(kind_words(self.kind));
        text.append(": ");
        text.append(self.detail.as_str());
        text
    }
}

} // verus!
