use vstd::prelude::*;

use crate::directive::{parse_directive, parse_spec, Directive, DirectiveError};
use crate::shape::{
    optional_wrapper, sequence_wrapper, strip_optional, strip_sequence, strip_spec, unwrap_spec,
    TypeRef,
};

verus! {

#[derive(Debug, PartialEq, Eq)]
/// One field of a record, as declared.
pub struct FieldSchema {
    pub name: String,
    pub ty: TypeRef,
    pub directives: Vec<Directive>,
}

/// What a setter does to its field's slot in the builder.
#[derive(Debug, PartialEq, Eq, Structural, Clone, Copy)]
pub enum Effect {
    /// Stores its argument as the field's value, replacing any earlier one.
    Replace,
    /// Replaces the accumulated sequence with a whole new one.
    ReplaceAll,
    /// Appends one element to the accumulated sequence.
    Append,
}

#[derive(Debug, PartialEq, Eq)]
/// One declaration that the builder gets for a field.
pub enum Operation {
    /// A setter method named `name`.
    Setter { name: String, effect: Effect },
    /// In place of a setter: a declaration that reports the directive error.
    Rejected { error: DirectiveError },
}

#[derive(Debug, PartialEq, Eq)]
/// The decision record for one field.
pub struct FieldClassification {
    pub name: String,
    /// The declared type was `Option<_>`.
    pub is_optional: bool,
    /// The type that the builder stores for the field: the declared type
    /// without `Option<_>`, and, for an accumulator, the element type.
    pub element_type: TypeRef,
    /// A builder directive was accepted: the field accumulates elements.
    pub has_accumulator: bool,
    /// The setters (or the rejection) that the builder declares for it.
    pub operations: Vec<Operation>,
}

/// The classification that `f` receives.
pub open spec fn classified(f: FieldSchema, r: FieldClassification) -> bool {
    let t = strip_spec(f.ty, optional_wrapper());
    &&& r.name == f.name
    &&& r.is_optional == unwrap_spec(f.ty, optional_wrapper()) is Some
    &&& match parse_spec(f.name, f.directives@, t) {
        Err(e) => {
            &&& !r.has_accumulator
            &&& r.element_type == t
            &&& r.operations@ == seq![Operation::Rejected { error: e }]
        },
        Ok(None) => {
            &&& !r.has_accumulator
            &&& r.element_type == t
            &&& r.operations@ == seq![Operation::Setter { name: f.name, effect: Effect::Replace }]
        },
        Ok(Some(acc)) => {
            &&& r.has_accumulator
            &&& r.element_type == strip_spec(t, sequence_wrapper())
            &&& r.operations@ == if acc@ == f.name@ {
                seq![Operation::Setter { name: f.name, effect: Effect::Append }]
            } else {
                seq![
                    Operation::Setter { name: f.name, effect: Effect::ReplaceAll },
                    Operation::Setter { name: acc, effect: Effect::Append },
                ]
            }
        },
    }
}

/// Decides how the builder treats the field `f`: whether it is optional,
/// whether it accumulates elements, what the builder stores for it, and
/// which setters it gets.
pub fn classify(f: FieldSchema) -> (r: FieldClassification)
    ensures
        classified(f, r),
{
    let ghost f0 = f;
    let FieldSchema { name, ty, directives } = f;
    let (is_optional, t) = strip_optional(ty);
    let parsed = parse_directive(&name, &directives, &t);
    match parsed {
        Err(e) => {
            let mut operations: Vec<Operation> = Vec::new();
            operations.push(Operation::Rejected { error: e });
            assert(operations@ =~= seq![Operation::Rejected { error: e }]);
            FieldClassification { name, is_optional, element_type: t, has_accumulator: false, operations }
        },
        Ok(None) => {
            let mut operations: Vec<Operation> = Vec::new();
            let setter_name = name.clone();
            operations.push(Operation::Setter { name: setter_name, effect: Effect::Replace });
            assert(operations@ =~= seq![Operation::Setter { name: f0.name, effect: Effect::Replace }]);
            FieldClassification { name, is_optional, element_type: t, has_accumulator: false, operations }
        },
        Ok(Some(acc)) => {
            let (_, e) = strip_sequence(t);
            let mut operations: Vec<Operation> = Vec::new();
            if acc == name {
                let setter_name = name.clone();
                operations.push(Operation::Setter { name: setter_name, effect: Effect::Append });
                assert(operations@ =~= seq![Operation::Setter { name: f0.name, effect: Effect::Append }]);
            } else {
                let setter_name = name.clone();
                operations.push(Operation::Setter { name: setter_name, effect: Effect::ReplaceAll });
                operations.push(Operation::Setter { name: acc, effect: Effect::Append });
                assert(operations@ =~= seq![
                    Operation::Setter { name: f0.name, effect: Effect::ReplaceAll },
                    Operation::Setter { name: acc, effect: Effect::Append },
                ]);
            }
            FieldClassification { name, is_optional, element_type: e, has_accumulator: true, operations }
        },
    }
}

} // verus!
