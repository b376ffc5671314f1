use vstd::prelude::*;

verus! {

#[derive(Debug, PartialEq, Eq)]
/// A type as written in a field declaration: a named type, applied to zero
/// or more type parameters (`Vec<String>` is `Vec` applied to `String`).
pub struct TypeRef {
    pub name: String,
    pub params: Vec<TypeRef>,
}

/// Name of the wrapper that marks a field as optional.
pub open spec fn optional_wrapper() -> Seq<char> {
    seq!['O', 'p', 't', 'i', 'o', 'n']
}

/// Name of the wrapper that marks a field as sequence-valued.
pub open spec fn sequence_wrapper() -> Seq<char> {
    seq!['V', 'e', 'c']
}

/// The parameter of `t` when `t` is the wrapper `w` applied to exactly one
/// type; `None` for any other shape.
pub open spec fn unwrap_spec(t: TypeRef, w: Seq<char>) -> Option<TypeRef> {
    if t.name@ == w && t.params@.len() == 1 {
        Some(t.params@[0])
    } else {
        None
    }
}

/// `t` with one layer of the wrapper `w` removed, or `t` itself when it does
/// not have that shape.
pub open spec fn strip_spec(t: TypeRef, w: Seq<char>) -> TypeRef {
    match unwrap_spec(t, w) {
        Some(e) => e,
        None => t,
    }
}

fn has_name(t: &TypeRef, w: &str) -> (r: bool)
    ensures
        r == (t.name@ == w@),
{
    let s = String::from_str(w);
    t.name == s
}

fn unwrap_wrapper<'a>(t: &'a TypeRef, w: &str) -> (r: Option<&'a TypeRef>)
    ensures
        match r {
            Some(e) => unwrap_spec(*t, w@) == Some(*e),
            None => unwrap_spec(*t, w@) is None,
        },
{
    if has_name(t, w) && t.params.len() == 1 {
        Some(&t.params[0])
    } else {
        None
    }
}

/// The type inside `Option<_>`, when `t` is exactly that shape.
pub fn unwrap_optional(t: &TypeRef) -> (r: Option<&TypeRef>)
    ensures
        match r {
            Some(e) => unwrap_spec(*t, optional_wrapper()) == Some(*e),
            None => unwrap_spec(*t, optional_wrapper()) is None,
        },
{
    proof {
        reveal_strlit("Option");
        assert("Option"@ =~= optional_wrapper());
    }
    unwrap_wrapper(t, "Option")
}

/// The element type inside `Vec<_>`, when `t` is exactly that shape.
pub fn unwrap_sequence(t: &TypeRef) -> (r: Option<&TypeRef>)
    ensures
        match r {
            Some(e) => unwrap_spec(*t, sequence_wrapper()) == Some(*e),
            None => unwrap_spec(*t, sequence_wrapper()) is None,
        },
{
    proof {
        reveal_strlit("Vec");
        assert("Vec"@ =~= sequence_wrapper());
    }
    unwrap_wrapper(t, "Vec")
}

/// Takes one layer of the wrapper `w` off `t`, handing back the inner type
/// and `true`, or `t` unchanged and `false`.
fn strip_wrapper(t: TypeRef, w: &str) -> (r: (bool, TypeRef))
    ensures
        r.0 == unwrap_spec(t, w@) is Some,
        r.1 == strip_spec(t, w@),
{
    if has_name(&t, w) && t.params.len() == 1 {
        let TypeRef { name: _, mut params } = t;
        let inner = params.remove(0);
        (true, inner)
    } else {
        (false, t)
    }
}

/// `t` without its `Option<_>` layer, and whether it had one.
pub fn strip_optional(t: TypeRef) -> (r: (bool, TypeRef))
    ensures
        r.0 == unwrap_spec(t, optional_wrapper()) is Some,
        r.1 == strip_spec(t, optional_wrapper()),
{
    proof {
        reveal_strlit("Option");
        assert("Option"@ =~= optional_wrapper());
    }
    strip_wrapper(t, "Option")
}

/// `t` without its `Vec<_>` layer, and whether it had one.
pub fn strip_sequence(t: TypeRef) -> (r: (bool, TypeRef))
    ensures
        r.0 == unwrap_spec(t, sequence_wrapper()) is Some,
        r.1 == strip_spec(t, sequence_wrapper()),
{
    proof {
        reveal_strlit("Vec");
        assert("Vec"@ =~= sequence_wrapper());
    }
    strip_wrapper(t, "Vec")
}

} // verus!
