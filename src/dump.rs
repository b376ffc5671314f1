use vstd::prelude::*;

use crate::synth::{DeclBody, DeclInput, StructuralMismatch};

verus! {

#[derive(Debug, Clone, PartialEq, Eq)]
/// The generated listing function of an enumeration: its name, and the
/// variants whose name and discriminant it prints, one line each, in order.
pub struct DumpFunction {
    pub name: String,
    pub enum_name: String,
    pub variants: Vec<String>,
}

/// What `str::to_lowercase` makes of a string.
pub uninterp spec fn lower_of(s: Seq<char>) -> Seq<char>;

/// Relies on `str::to_lowercase`: the result depends on the characters alone.
#[verifier::external_body]
fn lowercase(s: &String) -> (r: String)
    ensures
        r@ == lower_of(s@),
{
    s.to_lowercase()
}

pub open spec fn names_suffix() -> Seq<char> {
    seq!['_', 'n', 'a', 'm', 'e', 's']
}

/// The listing function of the enumeration `enum_name`, whose name in lower
/// case is `lowered`, with the variants `variants`.
pub fn dump_function(enum_name: String, lowered: String, variants: Vec<String>) -> (r: DumpFunction)
    ensures
        r.name@ == lowered@ + names_suffix(),
        r.enum_name == enum_name,
        r.variants == variants,
{
    proof {
        reveal_strlit("_names");
        assert("_names"@ =~= names_suffix());
    }
    DumpFunction { name: lowered.concat("_names"), enum_name, variants }
}

/// Generates the listing function of the enumeration `input`, or reports
/// that `input` is not an enumeration.
pub fn derive_enum_to_dict(input: DeclInput) -> (r: Result<DumpFunction, StructuralMismatch>)
    ensures
        input.body is Enumeration ==> (r matches Ok(f) && f.name@ == lower_of(input.name@)
            + names_suffix() && f.enum_name == input.name && f.variants
            == input.body->Enumeration_0),
        !(input.body is Enumeration) ==> r == Err::<DumpFunction, StructuralMismatch>(
            StructuralMismatch { name: input.name },
        ),
{
    let DeclInput { name, body } = input;
    match body {
        DeclBody::Enumeration(variants) => {
            let lowered = lowercase(&name);
            Ok(dump_function(name, lowered, variants))
        },
        _ => Err(StructuralMismatch { name }),
    }
}

} // verus!
