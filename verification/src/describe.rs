//! Type descriptions for external schema tooling: a record is described with
//! full field-level typing, while the dynamic map is deliberately described
//! as an opaque string-typed primitive.

use vstd::prelude::*;

use crate::record::GroomingRecord;
use crate::schema::{schema, FieldKind};
use crate::state_map::GroomingStateMap;

verus! {

/// The mathematical form of a type description: opaque, or a record with an
/// ordered list of typed, named fields.
#[verifier::ext_equal]
pub enum ShapeModel {
    Opaque,
    Record(Seq<(Seq<char>, FieldKind)>),
}

/// A type description as handed to external tooling: either an opaque
/// string-typed primitive, or a record listing its fields in order.
#[derive(Debug, Clone)]
pub enum TypeShape {
    Opaque,
    Record(Vec<(String, FieldKind)>),
}

impl View for TypeShape {
    type V = ShapeModel;

    open spec fn view(&self) -> ShapeModel {
        match self {
            TypeShape::Opaque => ShapeModel::Opaque,
            TypeShape::Record(fields) => ShapeModel::Record(
                fields@.map_values(|p: (String, FieldKind)| (p.0@, p.1)),
            ),
        }
    }
}

/// A type that can describe its own shape to external tooling.
pub trait Describe {
    /// The shape this type is described with.
    spec fn shape_spec() -> ShapeModel;

    /// Produces the type's description.
    fn describe() -> (t: TypeShape)
        ensures
            t@ == Self::shape_spec(),
    ;
}

impl Describe for GroomingStateMap {
    /// The dynamic map is presented as an opaque primitive: external tooling
    /// must not see it as a structured record.
    open spec fn shape_spec() -> ShapeModel {
        ShapeModel::Opaque
    }

    fn describe() -> (t: TypeShape) {
        TypeShape::Opaque
    }
}

impl Describe for GroomingRecord {
    /// The record is presented with full field-level typing: exactly its
    /// schema, in declaration order.
    open spec fn shape_spec() -> ShapeModel {
        ShapeModel::Record(schema())
    }

    fn describe() -> (t: TypeShape) {
        let mut fields: Vec<(String, FieldKind)> = Vec::new();
        fields.push(("fur_length_cm".to_owned(), FieldKind::Int32));
        fields.push(("brush_type".to_owned(), FieldKind::Text));
        fields.push(("shedding_score".to_owned(), FieldKind::UInt8));
        fields.push(("nail_trimmed".to_owned(), FieldKind::Boolean));
        fields.push(("favorite_spot".to_owned(), FieldKind::Text));
        let t = TypeShape::Record(fields);
        proof {
            assert(t@ =~= ShapeModel::Record(schema()));
        }
        t
    }
}

} // verus!
