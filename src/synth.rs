use vstd::prelude::*;

use crate::classify::{classified, classify, Effect, FieldClassification, FieldSchema, Operation};
use crate::directive::DirectiveError;
use crate::shape::TypeRef;

verus! {

/// How `build` treats a field.
#[derive(Debug, PartialEq, Eq, Structural, Clone, Copy)]
pub enum Requirement {
    /// Stored as an unset-or-present value; `build` fails while unset.
    Required,
    /// Stored as an unset-or-present value, handed over as it stands.
    Optional,
    /// Stored as a sequence that starts empty; never missing.
    Accumulated,
}

#[derive(Debug, PartialEq, Eq)]
/// The builder's storage slot for one field.
pub struct SlotDecl {
    pub field: String,
    pub element_type: TypeRef,
    pub requirement: Requirement,
}

#[derive(Debug, Clone, PartialEq, Eq)]
/// A setter method of the builder: its name, the slot it writes, and how.
pub struct SetterDecl {
    pub name: String,
    pub slot: usize,
    pub effect: Effect,
}

#[derive(Debug, PartialEq, Eq)]
/// Everything generated for one record: the builder type's name, its slots
/// in field order, its setters, and the declarations that report rejected
/// directives.
pub struct BuilderDecl {
    pub record_name: String,
    pub builder_name: String,
    pub slots: Vec<SlotDecl>,
    pub setters: Vec<SetterDecl>,
    pub rejected: Vec<DirectiveError>,
}

#[derive(Debug, PartialEq, Eq)]
/// The shape of a declaration handed to a generator.
pub enum DeclBody {
    /// A record with named fields, in declaration order.
    Record(Vec<FieldSchema>),
    /// A record whose fields have no names.
    Tuple,
    /// A record without fields.
    Unit,
    /// An enumeration, with the names of its variants in order.
    Enumeration(Vec<String>),
    /// A union.
    Union,
}

#[derive(Debug, PartialEq, Eq)]
/// A declaration handed to a generator: its name and its body.
pub struct DeclInput {
    pub name: String,
    pub body: DeclBody,
}

#[derive(Debug, Clone, PartialEq, Eq)]
/// The declaration is not of the kind that the generator accepts.
pub struct StructuralMismatch {
    pub name: String,
}

pub open spec fn builder_suffix() -> Seq<char> {
    seq!['B', 'u', 'i', 'l', 'd', 'e', 'r']
}

pub open spec fn requirement_of(c: FieldClassification) -> Requirement {
    if c.has_accumulator {
        Requirement::Accumulated
    } else if c.is_optional {
        Requirement::Optional
    } else {
        Requirement::Required
    }
}

pub open spec fn slot_of(c: FieldClassification) -> SlotDecl {
    SlotDecl { field: c.name, element_type: c.element_type, requirement: requirement_of(c) }
}

/// The setters among `ops`, in order, all writing slot `slot`.
pub open spec fn op_setters(ops: Seq<Operation>, slot: int) -> Seq<SetterDecl>
    decreases ops.len(),
{
    if ops.len() == 0 {
        seq![]
    } else {
        op_setters(ops.drop_last(), slot) + match ops.last() {
            Operation::Setter { name, effect } => seq![SetterDecl { name, slot: slot as usize, effect }],
            Operation::Rejected { .. } => seq![],
        }
    }
}

/// The rejections among `ops`, in order.
pub open spec fn op_rejections(ops: Seq<Operation>) -> Seq<DirectiveError>
    decreases ops.len(),
{
    if ops.len() == 0 {
        seq![]
    } else {
        op_rejections(ops.drop_last()) + match ops.last() {
            Operation::Setter { .. } => seq![],
            Operation::Rejected { error } => seq![error],
        }
    }
}

/// The setters of the first `n` fields, field by field.
pub open spec fn setters_upto(cs: Seq<FieldClassification>, n: int) -> Seq<SetterDecl>
    decreases n,
{
    if n <= 0 {
        seq![]
    } else {
        setters_upto(cs, n - 1) + op_setters(cs[n - 1].operations@, n - 1)
    }
}

/// The rejections of the first `n` fields, field by field.
pub open spec fn rejections_upto(cs: Seq<FieldClassification>, n: int) -> Seq<DirectiveError>
    decreases n,
{
    if n <= 0 {
        seq![]
    } else {
        rejections_upto(cs, n - 1) + op_rejections(cs[n - 1].operations@)
    }
}

/// `r` is what the record `name` with the classified fields `cs` generates.
pub open spec fn synthesized(name: String, cs: Seq<FieldClassification>, r: BuilderDecl) -> bool {
    &&& r.record_name == name
    &&& r.builder_name@ == name@ + builder_suffix()
    &&& r.slots@ == cs.map_values(|c: FieldClassification| slot_of(c))
    &&& r.setters@ == setters_upto(cs, cs.len() as int)
    &&& r.rejected@ == rejections_upto(cs, cs.len() as int)
}

/// Builds the builder declaration of the record `name` from its fields'
/// classifications, in field order.
pub fn synthesize(name: String, fields: Vec<FieldClassification>) -> (r: BuilderDecl)
    requires
        fields@.len() < usize::MAX,
    ensures
        synthesized(name, fields@, r),
{
    let ghost cs = fields@;
    let ghost n = fields@.len() as int;
    proof {
        reveal_strlit("Builder");
        assert("Builder"@ =~= builder_suffix());
    }
    let builder_name = name.clone().concat("Builder");
    let mut rest = fields;
    let mut slots: Vec<SlotDecl> = Vec::new();
    let mut setters: Vec<SetterDecl> = Vec::new();
    let mut rejected: Vec<DirectiveError> = Vec::new();
    let mut i: usize = 0;
    while rest.len() > 0
        invariant
            0 <= i <= n,
            n < usize::MAX,
            i + rest@.len() == n,
            cs.len() == n,
            rest@ == cs.subrange(i as int, n),
            slots@ == cs.subrange(0, i as int).map_values(|c: FieldClassification| slot_of(c)),
            setters@ == setters_upto(cs, i as int),
            rejected@ == rejections_upto(cs, i as int),
        decreases rest@.len(),
    {
        assert(rest@[0] == cs[i as int]);
        let c = rest.remove(0);
        let FieldClassification { name: field, is_optional, element_type, has_accumulator, operations } = c;
        let requirement = if has_accumulator {
            Requirement::Accumulated
        } else if is_optional {
            Requirement::Optional
        } else {
            Requirement::Required
        };
        slots.push(SlotDecl { field, element_type, requirement });
        let ghost ops = operations@;
        let ghost base_s = setters@;
        let ghost base_r = rejected@;
        let mut ops_rest = operations;
        let ghost mut j: int = 0;
        while ops_rest.len() > 0
            invariant
                0 <= j <= ops.len(),
                j + ops_rest@.len() == ops.len(),
                ops_rest@ == ops.subrange(j, ops.len() as int),
                setters@ == base_s + op_setters(ops.subrange(0, j), i as int),
                rejected@ == base_r + op_rejections(ops.subrange(0, j)),
            decreases ops_rest@.len(),
        {
            assert(ops_rest@[0] == ops[j]);
            let op = ops_rest.remove(0);
            assert(ops.subrange(0, j + 1).drop_last() =~= ops.subrange(0, j));
            match op {
                Operation::Setter { name: setter, effect } => {
                    setters.push(SetterDecl { name: setter, slot: i, effect });
                    assert(setters@ =~= base_s + op_setters(ops.subrange(0, j + 1), i as int));
                    assert(rejected@ =~= base_r + op_rejections(ops.subrange(0, j + 1)));
                },
                Operation::Rejected { error } => {
                    rejected.push(error);
                    assert(setters@ =~= base_s + op_setters(ops.subrange(0, j + 1), i as int));
                    assert(rejected@ =~= base_r + op_rejections(ops.subrange(0, j + 1)));
                },
            }
            proof {
                j = j + 1;
            }
        }
        assert(ops.subrange(0, j) =~= ops);
        assert(cs.subrange(0, i + 1).map_values(|c: FieldClassification| slot_of(c)) =~= slots@);
        i = i + 1;
    }
    assert(cs.subrange(0, n) =~= cs);
    BuilderDecl { record_name: name, builder_name, slots, setters, rejected }
}

/// `d` is the builder generated for the record `name` with the fields `fs`:
/// the synthesis over some classification of each field.
pub open spec fn generated_from(name: String, fs: Seq<FieldSchema>, d: BuilderDecl) -> bool {
    exists|cs: Seq<FieldClassification>|
        #![trigger synthesized(name, cs, d)]
        cs.len() == fs.len() && (forall|i: int| 0 <= i < cs.len() ==> classified(#[trigger] fs[i], cs[i]))
            && synthesized(name, cs, d)
}

/// Generates the builder for the record `input`, or reports that `input` is
/// not a record with named fields.
pub fn derive_builder(input: DeclInput) -> (r: Result<BuilderDecl, StructuralMismatch>)
    requires
        input.body is Record ==> input.body->Record_0@.len() < usize::MAX,
    ensures
        input.body is Record ==> r is Ok && generated_from(input.name, input.body->Record_0@, r->Ok_0),
        !(input.body is Record) ==> r == Err::<BuilderDecl, StructuralMismatch>(
            StructuralMismatch { name: input.name },
        ),
{
    let DeclInput { name, body } = input;
    match body {
        DeclBody::Record(fields) => {
            let ghost fs = fields@;
            let mut rest = fields;
            let mut cs: Vec<FieldClassification> = Vec::new();
            while rest.len() > 0
                invariant
                    cs@.len() + rest@.len() == fs.len(),
                    fs.len() < usize::MAX,
                    rest@ == fs.subrange(cs@.len() as int, fs.len() as int),
                    forall|i: int| 0 <= i < cs@.len() ==> classified(#[trigger] fs[i], cs@[i]),
                decreases rest@.len(),
            {
                let f = rest.remove(0);
                let c = classify(f);
                cs.push(c);
            }
            let ghost cv = cs@;
            let d = synthesize(name, cs);
            assert(fs == input.body->Record_0@);
            assert(cv.len() == fs.len());
            assert(synthesized(input.name, cv, d));
            assert(forall|i: int| 0 <= i < cv.len() ==> classified(#[trigger] fs[i], cv[i]));
            Ok(d)
        },
        _ => Err(StructuralMismatch { name }),
    }
}

} // verus!
