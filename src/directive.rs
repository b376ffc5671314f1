use vstd::prelude::*;

use crate::shape::{sequence_wrapper, unwrap_sequence, unwrap_spec, TypeRef};

verus! {

#[derive(Debug, Clone, PartialEq, Eq)]
/// The value given to a directive option: a string literal, or any other
/// expression, kept as written.
pub enum OptionValue {
    Text(String),
    Other(String),
}

#[derive(Debug, Clone, PartialEq, Eq)]
/// One `key = value` pair inside a directive.
pub struct DirectiveOption {
    pub key: String,
    pub value: OptionValue,
}

#[derive(Debug, Clone, PartialEq, Eq)]
/// An annotation attached to a field: a namespace tag and its options.
pub struct Directive {
    pub tag: String,
    pub options: Vec<DirectiveOption>,
}

#[derive(Debug, Clone, PartialEq, Eq)]
/// Why a builder directive could not be accepted for a field.
pub enum DirectiveError {
    /// The directive does not hold exactly one option, or its value is not
    /// a string literal.
    Malformed { field: String },
    /// The option's key is not the accumulator key.
    UnrecognizedOption { field: String, key: String },
    /// An accumulator was asked for on a field whose type is not `Vec<_>`.
    RequiresSequence { field: String },
}

/// Tag of the directives that the builder reads.
pub open spec fn builder_tag() -> Seq<char> {
    seq!['b', 'u', 'i', 'l', 'd', 'e', 'r']
}

/// Key of the option that names the per-element accumulator.
pub open spec fn accumulator_key() -> Seq<char> {
    seq!['e', 'a', 'c', 'h']
}

pub open spec fn is_builder_directive() -> spec_fn(Directive) -> bool {
    |d: Directive| d.tag@ == builder_tag()
}

/// Index of the first element among `s[0..n]` that satisfies `p`.
pub open spec fn first_index<T>(s: Seq<T>, p: spec_fn(T) -> bool, n: int) -> Option<int>
    decreases n,
{
    if n <= 0 {
        None
    } else {
        match first_index(s, p, n - 1) {
            Some(i) => Some(i),
            None => if p(s[n - 1]) {
                Some(n - 1)
            } else {
                None
            },
        }
    }
}

/// Once found in a prefix, the first match stays the first in longer prefixes.
pub proof fn lemma_first_index_stable<T>(s: Seq<T>, p: spec_fn(T) -> bool, a: int, b: int)
    requires
        a <= b,
        first_index(s, p, a) is Some,
    ensures
        first_index(s, p, b) == first_index(s, p, a),
    decreases b - a,
{
    if a < b {
        lemma_first_index_stable(s, p, a, b - 1);
    }
}

/// The first match, if any, satisfies `p` and lies inside the prefix.
pub proof fn lemma_first_index_found<T>(s: Seq<T>, p: spec_fn(T) -> bool, n: int)
    requires
        first_index(s, p, n) is Some,
    ensures
        0 <= first_index(s, p, n)->0 < n,
        p(s[first_index(s, p, n)->0]),
    decreases n,
{
    if first_index(s, p, n - 1) is Some {
        lemma_first_index_found(s, p, n - 1);
    }
}

/// What one builder directive means on the field `field`, whose type with any
/// `Option<_>` removed is `t`: the accumulator's name, or the error.
pub open spec fn directive_result(field: String, d: Directive, t: TypeRef) -> Result<String, DirectiveError> {
    if d.options@.len() != 1 {
        Err(DirectiveError::Malformed { field })
    } else if d.options@[0].key@ != accumulator_key() {
        Err(DirectiveError::UnrecognizedOption { field, key: d.options@[0].key })
    } else {
        match d.options@[0].value {
            OptionValue::Other(_) => Err(DirectiveError::Malformed { field }),
            OptionValue::Text(s) => if unwrap_spec(t, sequence_wrapper()) is Some {
                Ok(s)
            } else {
                Err(DirectiveError::RequiresSequence { field })
            },
        }
    }
}

/// The outcome of reading a field's directives: no accumulator when no
/// directive carries the builder tag; otherwise what the first one means.
pub open spec fn parse_spec(field: String, ds: Seq<Directive>, t: TypeRef) -> Result<Option<String>, DirectiveError> {
    match first_index(ds, is_builder_directive(), ds.len() as int) {
        None => Ok(None),
        Some(i) => match directive_result(field, ds[i], t) {
            Ok(s) => Ok(Some(s)),
            Err(e) => Err(e),
        },
    }
}

fn read_directive(field: &String, d: &Directive, t: &TypeRef) -> (r: Result<String, DirectiveError>)
    ensures
        r == directive_result(*field, *d, *t),
{
    proof {
        reveal_strlit("each");
        assert("each"@ =~= accumulator_key());
    }
    if d.options.len() != 1 {
        return Err(DirectiveError::Malformed { field: field.clone() });
    }
    let opt = &d.options[0];
    if opt.key != String::from_str("each") {
        return Err(DirectiveError::UnrecognizedOption { field: field.clone(), key: opt.key.clone() });
    }
    match &opt.value {
        OptionValue::Other(_) => Err(DirectiveError::Malformed { field: field.clone() }),
        OptionValue::Text(s) => {
            if unwrap_sequence(t).is_some() {
                Ok(s.clone())
            } else {
                Err(DirectiveError::RequiresSequence { field: field.clone() })
            }
        },
    }
}

/// Reads the builder directive of the field `field` whose type, with any
/// `Option<_>` removed, is `t`. Directives with another tag are ignored; of
/// several builder directives the first one counts.
pub fn parse_directive(field: &String, ds: &Vec<Directive>, t: &TypeRef) -> (r: Result<
    Option<String>,
    DirectiveError,
>)
    ensures
        r == parse_spec(*field, ds@, *t),
{
    proof {
        reveal_strlit("builder");
        assert("builder"@ =~= builder_tag());
    }
    let ghost p = is_builder_directive();
    let tag = String::from_str("builder");
    let mut i: usize = 0;
    while i < ds.len()
        invariant
            i <= ds@.len(),
            tag@ == builder_tag(),
            p == is_builder_directive(),
            first_index(ds@, p, i as int) is None,
        decreases ds@.len() - i,
    {
        if ds[i].tag == tag {
            assert(first_index(ds@, p, i + 1) == Some(i as int));
            proof {
                lemma_first_index_stable(ds@, p, i + 1, ds@.len() as int);
            }
            return match read_directive(field, &ds[i], t) {
                Ok(s) => Ok(Some(s)),
                Err(e) => Err(e),
            };
        }
        i = i + 1;
    }
    Ok(None)
}

} // verus!
