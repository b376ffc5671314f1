use vstd::prelude::*;

use crate::classify::Effect;
use crate::directive::first_index;
use crate::synth::{BuilderDecl, Requirement, SetterDecl, SlotDecl};

verus! {

#[derive(Debug, Clone, PartialEq, Eq)]
/// What a builder slot holds: an unset-or-present value, or the elements
/// accumulated so far.
pub enum SlotValue<V> {
    Single(Option<V>),
    Many(Vec<V>),
}

/// The mathematical content of a slot.
pub enum SlotModel<V> {
    Single(Option<V>),
    Many(Seq<V>),
}

impl<V> View for SlotValue<V> {
    type V = SlotModel<V>;

    open spec fn view(&self) -> SlotModel<V> {
        match self {
            SlotValue::Single(o) => SlotModel::Single(*o),
            SlotValue::Many(vs) => SlotModel::Many(vs@),
        }
    }
}

#[derive(Debug, Clone, PartialEq, Eq)]
/// The argument handed to a setter: one value, or a whole sequence.
pub enum Arg<V> {
    One(V),
    All(Vec<V>),
}

#[derive(Debug, Clone, PartialEq, Eq)]
/// A field of the finished record: a required value, an optional one, or
/// an accumulated sequence.
pub enum FieldValue<V> {
    Value(V),
    Maybe(Option<V>),
    Items(Vec<V>),
}

/// The mathematical content of a finished field.
pub enum FieldModel<V> {
    Value(V),
    Maybe(Option<V>),
    Items(Seq<V>),
}

impl<V> View for FieldValue<V> {
    type V = FieldModel<V>;

    open spec fn view(&self) -> FieldModel<V> {
        match self {
            FieldValue::Value(v) => FieldModel::Value(*v),
            FieldValue::Maybe(o) => FieldModel::Maybe(*o),
            FieldValue::Items(vs) => FieldModel::Items(vs@),
        }
    }
}

/// Why a setter call was refused.
#[derive(Debug, PartialEq, Eq, Structural, Clone, Copy)]
pub enum CallError {
    /// The builder has no setter of that name.
    UnknownSetter,
    /// The setter takes the other form of argument.
    WrongArgument,
}

#[derive(Debug, Clone, PartialEq, Eq)]
/// `build` was called while required fields were unset.
pub struct IncompleteBuilder {
    /// The names of all unset required fields, in field order.
    pub missing: Vec<String>,
}

pub open spec fn separator() -> Seq<char> {
    seq![',', ' ']
}

/// The names `ns` in order, with `", "` between neighbours.
pub open spec fn joined(ns: Seq<Seq<char>>) -> Seq<char>
    decreases ns.len(),
{
    if ns.len() == 0 {
        seq![]
    } else if ns.len() == 1 {
        ns[0]
    } else {
        joined(ns.drop_last()) + separator() + ns.last()
    }
}

impl IncompleteBuilder {
    /// The missing names, separated by `", "`.
    pub fn message(&self) -> (r: String)
        ensures
            r@ == joined(self.missing@.map_values(|s: String| s@)),
    {
        let ghost ns = self.missing@.map_values(|s: String| s@);
        let mut out = String::new();
        let mut i: usize = 0;
        while i < self.missing.len()
            invariant
                i <= self.missing@.len(),
                ns == self.missing@.map_values(|s: String| s@),
                out@ == joined(ns.subrange(0, i as int)),
            decreases self.missing@.len() - i,
        {
            assert(ns.subrange(0, i + 1).drop_last() =~= ns.subrange(0, i as int));
            assert(ns.subrange(0, i + 1).last() == self.missing@[i as int]@);
            let ghost before = out@;
            if i > 0 {
                proof {
                    reveal_strlit(", ");
                    assert(", "@ =~= separator());
                }
                out.append(", ");
                assert(out@ == before + separator());
            }
            let name = self.missing[i].as_str();
            assert(name@ == ns[i as int]);
            out.append(name);
            if i == 0 {
                assert(before =~= Seq::<char>::empty());
                assert(out@ =~= ns[0]);
                assert(ns.subrange(0, 1).len() == 1);
                assert(joined(ns.subrange(0, 1)) == ns.subrange(0, 1)[0]);
            }
            assert(out@ =~= joined(ns.subrange(0, i + 1)));
            i = i + 1;
        }
        assert(ns.subrange(0, i as int) =~= ns);
        out
    }
}

/// The state a fresh builder starts in: accumulated slots empty, all others
/// unset.
pub open spec fn initial_slot<V>(s: SlotDecl) -> SlotModel<V> {
    if s.requirement == Requirement::Accumulated {
        SlotModel::Many(Seq::empty())
    } else {
        SlotModel::Single(None)
    }
}

pub open spec fn initial_state<V>(d: BuilderDecl) -> Seq<SlotModel<V>> {
    d.slots@.map_values(|s: SlotDecl| initial_slot::<V>(s))
}

pub open spec fn setter_named(name: Seq<char>) -> spec_fn(SetterDecl) -> bool {
    |s: SetterDecl| s.name@ == name
}

/// The setter that a call by `name` reaches: the first one with that name.
pub open spec fn setter_index(d: BuilderDecl, name: Seq<char>) -> Option<int> {
    first_index(d.setters@, setter_named(name), d.setters@.len() as int)
}

/// The state after calling the setter `name` with `arg` in state `st`, or
/// why the call is refused (the state then stays as it was).
pub open spec fn step<V>(d: BuilderDecl, st: Seq<SlotModel<V>>, name: Seq<char>, arg: Arg<V>) -> Result<
    Seq<SlotModel<V>>,
    CallError,
> {
    match setter_index(d, name) {
        None => Err(CallError::UnknownSetter),
        Some(k) => {
            let s = d.setters@[k];
            let j = s.slot as int;
            if j >= st.len() {
                Err(CallError::UnknownSetter)
            } else {
                match (s.effect, arg, st[j]) {
                    (Effect::Replace, Arg::One(v), SlotModel::Single(_)) => Ok(
                        st.update(j, SlotModel::Single(Some(v))),
                    ),
                    (Effect::ReplaceAll, Arg::All(vs), SlotModel::Many(_)) => Ok(
                        st.update(j, SlotModel::Many(vs@)),
                    ),
                    (Effect::Append, Arg::One(v), SlotModel::Many(vs)) => Ok(
                        st.update(j, SlotModel::Many(vs.push(v))),
                    ),
                    _ => Err(CallError::WrongArgument),
                }
            }
        },
    }
}

/// The state after the calls `calls` in turn; refused calls change nothing.
pub open spec fn run<V>(d: BuilderDecl, st: Seq<SlotModel<V>>, calls: Seq<(Seq<char>, Arg<V>)>) -> Seq<
    SlotModel<V>,
>
    decreases calls.len(),
{
    if calls.len() == 0 {
        st
    } else {
        let prev = run(d, st, calls.drop_last());
        match step(d, prev, calls.last().0, calls.last().1) {
            Ok(next) => next,
            Err(_) => prev,
        }
    }
}

/// Field `i` is required and still unset.
pub open spec fn is_missing<V>(d: BuilderDecl, st: Seq<SlotModel<V>>, i: int) -> bool {
    d.slots@[i].requirement == Requirement::Required && st[i] == SlotModel::<V>::Single(None)
}

/// The names of the missing fields among the first `n`, in field order.
pub open spec fn missing_upto<V>(d: BuilderDecl, st: Seq<SlotModel<V>>, n: int) -> Seq<String>
    decreases n,
{
    if n <= 0 {
        seq![]
    } else {
        missing_upto(d, st, n - 1) + if is_missing(d, st, n - 1) {
            seq![d.slots@[n - 1].field]
        } else {
            seq![]
        }
    }
}

pub open spec fn missing<V>(d: BuilderDecl, st: Seq<SlotModel<V>>) -> Seq<String> {
    missing_upto(d, st, d.slots@.len() as int)
}

/// What a slot contributes to the finished record.
pub open spec fn final_value<V>(req: Requirement, s: SlotModel<V>) -> FieldModel<V> {
    match s {
        SlotModel::Many(vs) => FieldModel::Items(vs),
        SlotModel::Single(o) => if req == Requirement::Optional {
            FieldModel::Maybe(o)
        } else {
            match o {
                Some(v) => FieldModel::Value(v),
                None => FieldModel::Maybe(None),
            }
        },
    }
}

/// The finished record's fields, in field order.
pub open spec fn final_values<V>(d: BuilderDecl, st: Seq<SlotModel<V>>) -> Seq<FieldModel<V>> {
    Seq::new(d.slots@.len(), |i: int| final_value(d.slots@[i].requirement, st[i]))
}

/// Each slot holds a sequence exactly when its field accumulates.
pub open spec fn kinds_match<V>(d: BuilderDecl, st: Seq<SlotModel<V>>) -> bool {
    &&& st.len() == d.slots@.len()
    &&& forall|i: int|
        0 <= i < st.len() ==> ((#[trigger] st[i] is Many) <==> d.slots@[i].requirement
            == Requirement::Accumulated)
}

/// No missing field among the first `n` leaves the list empty.
pub proof fn lemma_missing_empty<V>(d: BuilderDecl, st: Seq<SlotModel<V>>, n: int, i: int)
    requires
        missing_upto(d, st, n).len() == 0,
        0 <= i < n,
    ensures
        !is_missing(d, st, i),
    decreases n,
{
    if i < n - 1 {
        lemma_missing_empty(d, st, n - 1, i);
    }
}

#[derive(Debug)]
/// A builder of the record that `decl` describes, holding values of type `V`.
pub struct RecordBuilder<V> {
    decl: BuilderDecl,
    slots: Vec<SlotValue<V>>,
}

impl<V> View for RecordBuilder<V> {
    type V = Seq<SlotModel<V>>;

    closed spec fn view(&self) -> Seq<SlotModel<V>> {
        self.slots@.map_values(|s: SlotValue<V>| s@)
    }
}

impl<V> RecordBuilder<V> {
    /// The builder's invariant: one slot per field, of the field's kind.
    pub closed spec fn wf(&self) -> bool {
        kinds_match(self.decl, self@)
    }

    /// The declaration that this builder follows.
    pub closed spec fn plan(&self) -> BuilderDecl {
        self.decl
    }

    /// The declaration that this builder follows.
    pub fn declaration(&self) -> (r: &BuilderDecl)
        ensures
            *r == self.plan(),
    {
        &self.decl
    }

    /// A builder in its initial state: accumulated fields empty, all
    /// others unset.
    pub fn new(decl: BuilderDecl) -> (r: Self)
        ensures
            r.plan() == decl,
            r@ == initial_state::<V>(decl),
            r.wf(),
    {
        let mut slots: Vec<SlotValue<V>> = Vec::new();
        let mut i: usize = 0;
        while i < decl.slots.len()
            invariant
                i <= decl.slots@.len(),
                slots@.map_values(|s: SlotValue<V>| s@) =~= decl.slots@.subrange(0, i as int).map_values(
                    |s: SlotDecl| initial_slot::<V>(s),
                ),
            decreases decl.slots@.len() - i,
        {
            if decl.slots[i].requirement == Requirement::Accumulated {
                slots.push(SlotValue::Many(Vec::new()));
            } else {
                slots.push(SlotValue::Single(None));
            }
            assert(decl.slots@.subrange(0, i + 1).map_values(|s: SlotDecl| initial_slot::<V>(s))
                =~= decl.slots@.subrange(0, i as int).map_values(|s: SlotDecl| initial_slot::<V>(s)).push(
                initial_slot::<V>(decl.slots@[i as int]),
            ));
            i = i + 1;
        }
        assert(decl.slots@.subrange(0, i as int) =~= decl.slots@);
        let r = RecordBuilder { decl, slots };
        assert(r@ =~= initial_state::<V>(decl));
        r
    }

    fn find_setter(&self, name: &str) -> (r: Option<usize>)
        ensures
            match r {
                Some(k) => setter_index(self.plan(), name@) == Some(k as int),
                None => setter_index(self.plan(), name@) is None,
            },
    {
        let ghost p = setter_named(name@);
        let wanted = String::from_str(name);
        let mut k: usize = 0;
        while k < self.decl.setters.len()
            invariant
                k <= self.decl.setters@.len(),
                wanted@ == name@,
                p == setter_named(name@),
                first_index(self.decl.setters@, p, k as int) is None,
            decreases self.decl.setters@.len() - k,
        {
            if self.decl.setters[k].name == wanted {
                assert(first_index(self.decl.setters@, p, k + 1) == Some(k as int));
                proof {
                    crate::directive::lemma_first_index_stable(
                        self.decl.setters@,
                        p,
                        k + 1,
                        self.decl.setters@.len() as int,
                    );
                }
                return Some(k);
            }
            k = k + 1;
        }
        None
    }

    /// Calls the setter `name` with `arg`. A refused call leaves the
    /// builder as it was.
    pub fn call(&mut self, name: &str, arg: Arg<V>) -> (r: Result<(), CallError>)
        requires
            old(self).wf(),
        ensures
            final(self).wf(),
            final(self).plan() == old(self).plan(),
            match step(old(self).plan(), old(self)@, name@, arg) {
                Ok(next) => r is Ok && final(self)@ == next,
                Err(e) => r == Err::<(), CallError>(e) && final(self)@ == old(self)@,
            },
    {
        let ghost st = self@;
        let k = match self.find_setter(name) {
            Some(k) => k,
            None => return Err(CallError::UnknownSetter),
        };
        proof {
            crate::directive::lemma_first_index_found(
                self.decl.setters@,
                setter_named(name@),
                self.decl.setters@.len() as int,
            );
        }
        let j = self.decl.setters[k].slot;
        if j >= self.slots.len() {
            return Err(CallError::UnknownSetter);
        }
        let effect = self.decl.setters[k].effect;
        let mut slot = SlotValue::Single(None);
        std::mem::swap(&mut slot, &mut self.slots[j]);
        assert(slot@ == st[j as int]);
        let outcome = match (effect, arg, slot) {
            (Effect::Replace, Arg::One(v), SlotValue::Single(_)) => Ok(SlotValue::Single(Some(v))),
            (Effect::ReplaceAll, Arg::All(vs), SlotValue::Many(_)) => Ok(SlotValue::Many(vs)),
            (Effect::Append, Arg::One(v), SlotValue::Many(mut vs)) => {
                vs.push(v);
                Ok(SlotValue::Many(vs))
            },
            (_, _, old_slot) => Err(old_slot),
        };
        match outcome {
            Ok(next) => {
                self.slots.set(j, next);
                assert(self@ =~= step(self.decl, st, name@, arg)->Ok_0);
                Ok(())
            },
            Err(old_slot) => {
                self.slots.set(j, old_slot);
                assert(self@ =~= st);
                Err(CallError::WrongArgument)
            },
        }
    }

    /// Finishes the record: the fields' values in field order, or the names
    /// of all required fields that are still unset.
    pub fn build(self) -> (r: Result<Vec<FieldValue<V>>, IncompleteBuilder>)
        requires
            self.wf(),
        ensures
            missing(self.plan(), self@).len() > 0 ==> (r matches Err(e) && e.missing@ == missing(
                self.plan(),
                self@,
            )),
            missing(self.plan(), self@).len() == 0 ==> (r matches Ok(vs) && vs@.map_values(
                |v: FieldValue<V>| v@,
            ) == final_values(self.plan(), self@)),
    {
        let ghost st = self@;
        let ghost d = self.decl;
        let n = self.slots.len();
        let mut names: Vec<String> = Vec::new();
        let mut i: usize = 0;
        while i < n
            invariant
                n == self.slots@.len(),
                i <= n,
                st == self@,
                d == self.decl,
                kinds_match(d, st),
                names@ == missing_upto(d, st, i as int),
            decreases n - i,
        {
            let required = self.decl.slots[i].requirement == Requirement::Required;
            let unset = match &self.slots[i] {
                SlotValue::Single(None) => true,
                _ => false,
            };
            assert(unset == (st[i as int] == SlotModel::<V>::Single(None)));
            if required && unset {
                names.push(self.decl.slots[i].field.clone());
            }
            assert(names@ =~= missing_upto(d, st, i + 1));
            i = i + 1;
        }
        if names.len() > 0 {
            return Err(IncompleteBuilder { missing: names });
        }
        let RecordBuilder { decl, slots } = self;
        let mut rest = slots;
        let mut out: Vec<FieldValue<V>> = Vec::new();
        let mut i: usize = 0;
        while rest.len() > 0
            invariant
                i <= n,
                i + rest@.len() == n,
                n == st.len(),
                d == decl,
                kinds_match(d, st),
                missing(d, st).len() == 0,
                out@.len() == i,
                rest@.map_values(|s: SlotValue<V>| s@) == st.subrange(i as int, n as int),
                out@.map_values(|v: FieldValue<V>| v@) =~= final_values(d, st).subrange(0, i as int),
            decreases rest@.len(),
        {
            let ghost before = rest@;
            assert(before.map_values(|s: SlotValue<V>| s@)[0] == st[i as int]);
            let s = rest.remove(0);
            assert(s@ == st[i as int]);
            assert forall|k: int| 0 <= k < rest@.len() implies #[trigger] rest@[k]@ == st[i + 1 + k] by {
                assert(rest@[k] == before[k + 1]);
                assert(before.map_values(|s: SlotValue<V>| s@)[k + 1] == st[i + 1 + k]);
            }
            assert(rest@.map_values(|s: SlotValue<V>| s@) =~= st.subrange(i + 1, n as int));
            proof {
                lemma_missing_empty(d, st, n as int, i as int);
            }
            let req = decl.slots[i].requirement;
            let v = match s {
                SlotValue::Many(vs) => FieldValue::Items(vs),
                SlotValue::Single(o) => {
                    if req == Requirement::Optional {
                        FieldValue::Maybe(o)
                    } else {
                        match o {
                            Some(v) => FieldValue::Value(v),
                            None => FieldValue::Maybe(None),
                        }
                    }
                },
            };
            assert(v@ == final_value(d.slots@[i as int].requirement, st[i as int]));
            let ghost prev = out@;
            out.push(v);
            assert forall|k: int| 0 <= k < i + 1 implies #[trigger] out@[k]@ == final_values(d, st)[k] by {
                if k < i {
                    assert(out@[k] == prev[k]);
                    assert(prev.map_values(|v: FieldValue<V>| v@)[k] == final_values(d, st).subrange(0, i as int)[k]);
                }
            }
            assert(out@.map_values(|v: FieldValue<V>| v@) =~= final_values(d, st).subrange(0, i + 1));
            i = i + 1;
        }
        assert(final_values(d, st).subrange(0, n as int) =~= final_values(d, st));
        Ok(out)
    }
}

} // verus!
