use vstd::prelude::*;

use crate::classify::{classified, Effect, FieldClassification, FieldSchema, Operation};
use crate::directive::{first_index, is_builder_directive, lemma_first_index_found, parse_spec};
use crate::runtime::{
    final_values, initial_state, is_missing, kinds_match, missing, missing_upto, run,
    setter_index, setter_named, step, Arg, CallError, FieldModel, SlotModel,
};
use crate::shape::{optional_wrapper, strip_spec, unwrap_spec};
use crate::synth::{
    generated_from, op_setters, setters_upto, synthesized, BuilderDecl, Requirement, SlotDecl,
};

verus! {

/// Every field of `d` is required.
pub open spec fn all_required(d: BuilderDecl) -> bool {
    forall|i: int| 0 <= i < d.slots@.len() ==> (#[trigger] d.slots@[i]).requirement == Requirement::Required
}

/// Every setter of `d` replaces a value, and writes one of `d`'s slots.
pub open spec fn plain_setters(d: BuilderDecl) -> bool {
    forall|k: int|
        0 <= k < d.setters@.len() ==> (#[trigger] d.setters@[k]).effect == Effect::Replace
            && d.setters@[k].slot < d.slots@.len()
}

/// No two fields of `d` share a name.
pub open spec fn unique_fields(d: BuilderDecl) -> bool {
    forall|a: int, b: int|
        0 <= a < d.slots@.len() && 0 <= b < d.slots@.len() && a != b ==> (#[trigger] d.slots@[a]).field
            != (#[trigger] d.slots@[b]).field
}

/// The call `c` stores a value into slot `i`.
pub open spec fn sets_slot<V>(d: BuilderDecl, c: (Seq<char>, Arg<V>), i: int) -> bool {
    &&& setter_index(d, c.0) is Some
    &&& d.setters@[setter_index(d, c.0)->0].slot == i
    &&& c.1 is One
}

/// Some call among `calls` stores a value into slot `i`.
pub open spec fn ever_set<V>(d: BuilderDecl, calls: Seq<(Seq<char>, Arg<V>)>, i: int) -> bool {
    exists|k: int| 0 <= k < calls.len() && sets_slot(d, #[trigger] calls[k], i)
}

/// The list of missing names is empty exactly when no field is missing.
pub proof fn lemma_missing_upto_empty<V>(d: BuilderDecl, st: Seq<SlotModel<V>>, n: int)
    requires
        0 <= n,
    ensures
        missing_upto(d, st, n).len() == 0 <==> forall|i: int| 0 <= i < n ==> !is_missing(d, st, i),
    decreases n,
{
    if n > 0 {
        lemma_missing_upto_empty(d, st, n - 1);
    }
}

/// A name in the missing list belongs to a missing field.
pub proof fn lemma_missing_upto_member<V>(d: BuilderDecl, st: Seq<SlotModel<V>>, n: int, x: String)
    requires
        0 <= n,
        missing_upto(d, st, n).contains(x),
    ensures
        exists|j: int| 0 <= j < n && is_missing(d, st, j) && d.slots@[j].field == x,
    decreases n,
{
    if n > 0 {
        let prev = missing_upto(d, st, n - 1);
        if prev.contains(x) {
            lemma_missing_upto_member(d, st, n - 1, x);
        } else {
            let k = choose|k: int| 0 <= k < missing_upto(d, st, n).len() && missing_upto(d, st, n)[k] == x;
            assert(k >= prev.len());
            assert(is_missing(d, st, n - 1) && d.slots@[n - 1].field == x);
        }
    }
}

/// With only required fields and plain setters, after any calls from a
/// fresh builder each slot is present exactly when some call set it.
proof fn lemma_run_required<V>(d: BuilderDecl, calls: Seq<(Seq<char>, Arg<V>)>)
    requires
        all_required(d),
        plain_setters(d),
    ensures
        run(d, initial_state::<V>(d), calls).len() == d.slots@.len(),
        forall|i: int|
            0 <= i < d.slots@.len() ==> (#[trigger] run(d, initial_state::<V>(d), calls)[i]) is Single
                && (run(d, initial_state::<V>(d), calls)[i]->Single_0 is Some <==> ever_set(d, calls, i)),
    decreases calls.len(),
{
    let st0 = initial_state::<V>(d);
    if calls.len() == 0 {
        assert forall|i: int| 0 <= i < d.slots@.len() implies (#[trigger] run(d, st0, calls)[i]) is Single
            && (run(d, st0, calls)[i]->Single_0 is Some <==> ever_set(d, calls, i)) by {
            assert(d.slots@[i].requirement == Requirement::Required);
        }
    } else {
        let init = calls.drop_last();
        let c = calls.last();
        lemma_run_required(d, init);
        let prev = run(d, st0, init);
        assert forall|i: int| 0 <= i < d.slots@.len() implies (#[trigger] run(d, st0, calls)[i]) is Single
            && (run(d, st0, calls)[i]->Single_0 is Some <==> ever_set(d, calls, i)) by {
            assert(prev[i] is Single);
            if ever_set(d, init, i) {
                let k = choose|k: int| 0 <= k < init.len() && sets_slot(d, #[trigger] init[k], i);
                assert(calls[k] == init[k]);
            }
            if ever_set(d, calls, i) && !sets_slot(d, c, i) {
                let k = choose|k: int| 0 <= k < calls.len() && sets_slot(d, #[trigger] calls[k], i);
                assert(k != calls.len() - 1);
                assert(init[k] == calls[k]);
            }
            if sets_slot(d, c, i) {
                assert(calls[calls.len() - 1] == c);
            }
            match setter_index(d, c.0) {
                None => {},
                Some(k) => {
                    lemma_first_index_found(d.setters@, setter_named(c.0), d.setters@.len() as int);
                    assert(d.setters@[k].effect == Effect::Replace);
                },
            }
        }
    }
}

/// The field is required and plain: its type is not `Option<_>` and it
/// carries no builder directive.
pub open spec fn plain_required(f: FieldSchema) -> bool {
    &&& unwrap_spec(f.ty, optional_wrapper()) is None
    &&& first_index(f.directives@, is_builder_directive(), f.directives@.len() as int) is None
}

proof fn lemma_plain_setters_upto(cs: Seq<FieldClassification>, n: int)
    requires
        0 <= n <= cs.len(),
        forall|i: int|
            0 <= i < cs.len() ==> (#[trigger] cs[i]).operations@ == seq![
                Operation::Setter { name: cs[i].name, effect: Effect::Replace },
            ],
    ensures
        forall|k: int|
            0 <= k < setters_upto(cs, n).len() ==> (#[trigger] setters_upto(cs, n)[k]).effect
                == Effect::Replace && (setters_upto(cs, n)[k].slot as int) < n,
    decreases n,
{
    if n > 0 {
        lemma_plain_setters_upto(cs, n - 1);
        let ops = cs[n - 1].operations@;
        assert(ops.drop_last() =~= Seq::<Operation>::empty());
        assert(op_setters(ops.drop_last(), n - 1) =~= Seq::<crate::synth::SetterDecl>::empty());
    }
}

/// The builder generated for a record whose fields are all plain and
/// required has only required slots and only plain setters, each writing
/// one of its slots.
pub proof fn law_plain_record_plan(name: String, fs: Seq<FieldSchema>, d: BuilderDecl)
    requires
        generated_from(name, fs, d),
        forall|i: int| 0 <= i < fs.len() ==> plain_required(#[trigger] fs[i]),
        fs.len() < usize::MAX,
    ensures
        d.slots@.len() == fs.len(),
        all_required(d),
        plain_setters(d),
{
    let cs = choose|cs: Seq<FieldClassification>|
        #![trigger synthesized(name, cs, d)]
        cs.len() == fs.len() && (forall|i: int| 0 <= i < cs.len() ==> classified(#[trigger] fs[i], cs[i]))
            && synthesized(name, cs, d);
    assert forall|i: int| 0 <= i < cs.len() implies (#[trigger] cs[i]).operations@ == seq![
        Operation::Setter { name: cs[i].name, effect: Effect::Replace },
    ] && !cs[i].is_optional && !cs[i].has_accumulator by {
        assert(classified(fs[i], cs[i]));
        assert(plain_required(fs[i]));
    }
    lemma_plain_setters_upto(cs, cs.len() as int);
    assert forall|i: int| 0 <= i < d.slots@.len() implies (#[trigger] d.slots@[i]).requirement
        == Requirement::Required by {
        assert(!cs[i].is_optional && !cs[i].has_accumulator);
    }
    assert forall|k: int| 0 <= k < d.setters@.len() implies (#[trigger] d.setters@[k]).effect
        == Effect::Replace && d.setters@[k].slot < d.slots@.len() by {
        assert(setters_upto(cs, cs.len() as int)[k] == d.setters@[k]);
    }
}

/// A fresh builder of a record whose fields are all required reports every
/// field as missing, in declaration order.
pub proof fn law_fresh_builder_misses_all<V>(d: BuilderDecl)
    requires
        all_required(d),
    ensures
        missing(d, initial_state::<V>(d)) == d.slots@.map_values(|s: SlotDecl| s.field),
{
    let st = initial_state::<V>(d);
    let n = d.slots@.len() as int;
    assert forall|m: int| 0 <= m <= n implies #[trigger] missing_upto(d, st, m) == d.slots@.subrange(0, m).map_values(
        |s: SlotDecl| s.field,
    ) by {
        lemma_fresh_prefix::<V>(d, m);
    }
    assert(d.slots@.subrange(0, n) =~= d.slots@);
}

proof fn lemma_fresh_prefix<V>(d: BuilderDecl, m: int)
    requires
        all_required(d),
        0 <= m <= d.slots@.len(),
    ensures
        missing_upto(d, initial_state::<V>(d), m) == d.slots@.subrange(0, m).map_values(|s: SlotDecl| s.field),
    decreases m,
{
    if m > 0 {
        lemma_fresh_prefix::<V>(d, m - 1);
        assert(d.slots@[m - 1].requirement == Requirement::Required);
        assert(missing_upto(d, initial_state::<V>(d), m) =~= d.slots@.subrange(0, m).map_values(
            |s: SlotDecl| s.field,
        ));
    } else {
        assert(missing_upto(d, initial_state::<V>(d), m) =~= d.slots@.subrange(0, m).map_values(
            |s: SlotDecl| s.field,
        ));
    }
}

/// For a record whose fields are all required and set by plain setters,
/// `build` after any calls from a fresh builder succeeds exactly when every
/// field was set at least once.
pub proof fn law_complete_iff_all_set<V>(d: BuilderDecl, calls: Seq<(Seq<char>, Arg<V>)>)
    requires
        all_required(d),
        plain_setters(d),
    ensures
        missing(d, run(d, initial_state::<V>(d), calls)).len() == 0 <==> forall|i: int|
            0 <= i < d.slots@.len() ==> ever_set(d, calls, i),
{
    let st = run(d, initial_state::<V>(d), calls);
    lemma_run_required(d, calls);
    lemma_missing_upto_empty(d, st, d.slots@.len() as int);
    assert forall|i: int| 0 <= i < d.slots@.len() implies (!is_missing(d, st, i) <==> ever_set(d, calls, i)) by {
        assert(st[i] is Single);
        assert(d.slots@[i].requirement == Requirement::Required);
    }
}

/// Calling a plain setter twice keeps only the second value.
pub proof fn law_setter_overwrites<V>(d: BuilderDecl, st: Seq<SlotModel<V>>, name: Seq<char>, v1: V, v2: V)
    requires
        setter_index(d, name) is Some,
        d.setters@[setter_index(d, name)->0].effect == Effect::Replace,
        step(d, st, name, Arg::One(v1)) is Ok,
    ensures
        step(d, step(d, st, name, Arg::One(v1))->Ok_0, name, Arg::One(v2)) == step(d, st, name, Arg::One(v2)),
        step(d, st, name, Arg::One(v2)) == Ok::<Seq<SlotModel<V>>, CallError>(
            st.update(d.setters@[setter_index(d, name)->0].slot as int, SlotModel::Single(Some(v2))),
        ),
{
    let j = d.setters@[setter_index(d, name)->0].slot as int;
    let s1 = st.update(j, SlotModel::Single(Some(v1)));
    assert(s1.update(j, SlotModel::Single(Some(v2))) =~= st.update(j, SlotModel::Single(Some(v2))));
}

/// The calls of the setter `name` with each element of `es` in turn.
pub open spec fn appends<V>(name: Seq<char>, es: Seq<V>) -> Seq<(Seq<char>, Arg<V>)> {
    es.map_values(|e: V| (name, Arg::One(e)))
}

/// Calling a per-element setter with each of `es` appends them in call
/// order and changes no other slot.
pub proof fn law_accumulates_in_order<V>(d: BuilderDecl, st: Seq<SlotModel<V>>, name: Seq<char>, es: Seq<V>)
    requires
        setter_index(d, name) is Some,
        d.setters@[setter_index(d, name)->0].effect == Effect::Append,
        (d.setters@[setter_index(d, name)->0].slot as int) < st.len(),
        st[d.setters@[setter_index(d, name)->0].slot as int] is Many,
    ensures
        run(d, st, appends(name, es)) == st.update(
            d.setters@[setter_index(d, name)->0].slot as int,
            SlotModel::Many(st[d.setters@[setter_index(d, name)->0].slot as int]->Many_0 + es),
        ),
    decreases es.len(),
{
    let j = d.setters@[setter_index(d, name)->0].slot as int;
    let base = st[j]->Many_0;
    if es.len() == 0 {
        assert(base + es =~= base);
        assert(st.update(j, SlotModel::Many(base)) =~= st);
    } else {
        let init = es.drop_last();
        law_accumulates_in_order(d, st, name, init);
        assert(appends(name, es).drop_last() =~= appends(name, init));
        assert(base + init.push(es.last()) =~= base + es);
        assert(es =~= init.push(es.last()));
        let prev = st.update(j, SlotModel::Many(base + init));
        assert(prev.update(j, SlotModel::Many((base + init).push(es.last()))) =~= st.update(
            j,
            SlotModel::Many(base + es),
        ));
    }
}

/// The whole-sequence setter discards what was accumulated.
pub proof fn law_replacer_discards<V>(d: BuilderDecl, st: Seq<SlotModel<V>>, name: Seq<char>, vs: Vec<V>)
    requires
        setter_index(d, name) is Some,
        d.setters@[setter_index(d, name)->0].effect == Effect::ReplaceAll,
        (d.setters@[setter_index(d, name)->0].slot as int) < st.len(),
        st[d.setters@[setter_index(d, name)->0].slot as int] is Many,
    ensures
        step(d, st, name, Arg::All(vs)) == Ok::<Seq<SlotModel<V>>, CallError>(
            st.update(d.setters@[setter_index(d, name)->0].slot as int, SlotModel::Many(vs@)),
        ),
{
}

/// When the accumulator shares the field's name, the field gets a single
/// setter, which appends one element; no whole-sequence setter exists.
pub proof fn law_shared_name_appends_only(f: FieldSchema, c: FieldClassification)
    requires
        classified(f, c),
        parse_spec(f.name, f.directives@, strip_spec(f.ty, optional_wrapper())) matches Ok(Some(acc))
            && acc@ == f.name@,
    ensures
        c.operations@ == seq![Operation::Setter { name: f.name, effect: Effect::Append }],
        forall|k: int|
            0 <= k < c.operations@.len() ==> !(#[trigger] c.operations@[k] matches Operation::Setter {
                effect: Effect::ReplaceAll,
                ..
            }),
{
}

/// A per-element setter refuses a whole sequence.
pub proof fn law_append_refuses_sequence<V>(d: BuilderDecl, st: Seq<SlotModel<V>>, name: Seq<char>, vs: Vec<V>)
    requires
        setter_index(d, name) is Some,
        d.setters@[setter_index(d, name)->0].effect == Effect::Append,
        (d.setters@[setter_index(d, name)->0].slot as int) < st.len(),
    ensures
        step(d, st, name, Arg::All(vs)) == Err::<Seq<SlotModel<V>>, CallError>(CallError::WrongArgument),
{
}

/// Optional and accumulated fields never appear in the missing list.
pub proof fn law_only_required_go_missing<V>(d: BuilderDecl, st: Seq<SlotModel<V>>, i: int)
    requires
        0 <= i < d.slots@.len(),
        d.slots@[i].requirement != Requirement::Required,
        unique_fields(d),
    ensures
        !missing(d, st).contains(d.slots@[i].field),
{
    if missing(d, st).contains(d.slots@[i].field) {
        lemma_missing_upto_member(d, st, d.slots@.len() as int, d.slots@[i].field);
        let j = choose|j: int|
            0 <= j < d.slots@.len() && is_missing(d, st, j) && d.slots@[j].field == d.slots@[i].field;
        assert(d.slots@[j] != d.slots@[i]);
    }
}

/// An optional field finishes as what was stored: absent when never set,
/// the value last set otherwise.
pub proof fn law_optional_passes_through<V>(d: BuilderDecl, st: Seq<SlotModel<V>>, i: int)
    requires
        kinds_match(d, st),
        0 <= i < d.slots@.len(),
        d.slots@[i].requirement == Requirement::Optional,
    ensures
        final_values(d, st)[i] == FieldModel::Maybe(st[i]->Single_0),
        final_values(d, initial_state::<V>(d))[i] == FieldModel::<V>::Maybe(None),
{
}

/// An accumulated field finishes as its elements; when untouched, as the
/// empty sequence.
pub proof fn law_accumulated_passes_through<V>(d: BuilderDecl, st: Seq<SlotModel<V>>, i: int)
    requires
        kinds_match(d, st),
        0 <= i < d.slots@.len(),
        d.slots@[i].requirement == Requirement::Accumulated,
    ensures
        final_values(d, st)[i] == FieldModel::Items(st[i]->Many_0),
        final_values(d, initial_state::<V>(d))[i] == FieldModel::<V>::Items(Seq::empty()),
{
    assert(st[i] is Many);
}

} // verus!
