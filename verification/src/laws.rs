//! The engine's global laws, each proved from the spec functions that the
//! executable functions' contracts are stated over.

use vstd::prelude::*;

use crate::error::{ErrorKind, ValidationErrorView};
use crate::keywords::{is_exclusive_spec, key_set, keyword_compile_spec, RegistryView};
use crate::schema::{all_keys, compile_spec, dispatch_spec, CtxView};
use crate::validators::{empty_state, run_one, run_seq, state_append, StateView, ValidatorView};
use crate::value::JVal;

verus! {

/// Compilation is deterministic: two successful compilations of one
/// document, with one registry and context, yield trees that validate
/// every instance identically.
pub proof fn lemma_compile_idempotent(
    def: JVal,
    reg: RegistryView,
    ctx: CtxView,
    t1: Seq<ValidatorView>,
    t2: Seq<ValidatorView>,
    inst: JVal,
    path: Seq<char>,
    scope: Map<Seq<char>, Seq<ValidatorView>>,
    fuel: nat,
)
    requires
        compile_spec(def, reg, ctx) == Result::Ok::<Seq<ValidatorView>, crate::error::SchemaErrorView>(t1),
        compile_spec(def, reg, ctx) == Result::Ok::<Seq<ValidatorView>, crate::error::SchemaErrorView>(t2),
    ensures
        run_seq(t1, inst, path, scope, fuel) == run_seq(t2, inst, path, scope, fuel),
{
}

/// A `const` validator never reports a missing reference; it accepts
/// exactly the instances whose model equals the stored literal, and
/// reports exactly one error, at the instance path, on any other.
pub proof fn lemma_const_semantics(
    item: JVal,
    inst: JVal,
    path: Seq<char>,
    scope: Map<Seq<char>, Seq<ValidatorView>>,
    fuel: nat,
)
    ensures
        ({
            let st = run_one(ValidatorView::Const { item }, inst, path, scope, fuel);
            &&& st.missing == Seq::<Seq<char>>::empty()
            &&& (inst == item ==> st.errors == Seq::<ValidationErrorView>::empty())
            &&& (inst != item ==> st.errors == seq![
                ValidationErrorView { path, kind: ErrorKind::Const },
            ])
        }),
{
}

/// Helper for leniency: dispatch over keys none of which the registry
/// knows produces exactly the validators accumulated so far.
proof fn lemma_dispatch_unknown(
    fields: Seq<(Seq<char>, JVal)>,
    i: int,
    pending: Set<Seq<char>>,
    reg: RegistryView,
    def: JVal,
    ctx: CtxView,
    acc: Seq<ValidatorView>,
)
    requires
        forall|j: int| 0 <= j < fields.len() ==> !reg.names.contains_key(#[trigger] fields[j].0),
    ensures
        dispatch_spec(fields, i, pending, reg, def, ctx, acc) == Result::Ok::<
            Seq<ValidatorView>,
            crate::error::SchemaErrorView,
        >(acc),
    decreases fields.len() - i,
{
    if i < 0 || i >= fields.len() {
    } else {
        lemma_dispatch_unknown(fields, i + 1, pending, reg, def, ctx, acc);
    }
}

/// Unknown keywords are lenient: a schema object none of whose keys is
/// registered compiles, to the empty tree, and the empty tree accepts
/// every instance with nothing missing.
pub proof fn lemma_unknown_keywords_lenient(
    fields: Seq<(Seq<char>, JVal)>,
    reg: RegistryView,
    ctx: CtxView,
    inst: JVal,
    path: Seq<char>,
    scope: Map<Seq<char>, Seq<ValidatorView>>,
    fuel: nat,
)
    requires
        forall|j: int| 0 <= j < fields.len() ==> !reg.names.contains_key(#[trigger] fields[j].0),
    ensures
        compile_spec(JVal::Obj(fields), reg, ctx) == Result::Ok::<
            Seq<ValidatorView>,
            crate::error::SchemaErrorView,
        >(Seq::<ValidatorView>::empty()),
        run_seq(Seq::<ValidatorView>::empty(), inst, path, scope, fuel) == empty_state(),
{
    lemma_dispatch_unknown(
        fields,
        0,
        all_keys(fields),
        reg,
        JVal::Obj(fields),
        ctx,
        Seq::<ValidatorView>::empty(),
    );
}

/// A consumer bound to two names is invoked exactly once: on an object
/// holding both names, dispatch yields what a single invocation of that
/// consumer's compiler yields, never two validators.
pub proof fn lemma_consumer_invoked_once(
    a: Seq<char>,
    b: Seq<char>,
    va: JVal,
    vb: JVal,
    reg: RegistryView,
    ctx: CtxView,
    ci: int,
)
    requires
        a != b,
        reg.names.contains_key(a) && reg.names[a] == ci,
        reg.names.contains_key(b) && reg.names[b] == ci,
        0 <= ci < reg.consumers.len(),
        key_set(reg.consumers[ci].keys).contains(a),
        key_set(reg.consumers[ci].keys).contains(b),
    ensures
        ({
            let fields = seq![(a, va), (b, vb)];
            compile_spec(JVal::Obj(fields), reg, ctx) == match keyword_compile_spec(
                reg.consumers[ci].keyword,
                JVal::Obj(fields),
                ctx,
            ) {
                Result::Err(e) => Result::Err::<Seq<ValidatorView>, crate::error::SchemaErrorView>(e),
                Result::Ok(Option::Some(v)) => Result::Ok(seq![v]),
                Result::Ok(Option::None) => Result::Ok(Seq::<ValidatorView>::empty()),
            }
        }),
{
    let fields = seq![(a, va), (b, vb)];
    let def = JVal::Obj(fields);
    assert(fields.drop_last() =~= seq![(a, va)]);
    assert(seq![(a, va)].drop_last() =~= Seq::<(Seq<char>, JVal)>::empty());
    let p0 = all_keys(fields);
    assert(p0 == all_keys(seq![(a, va)]).insert(b));
    assert(p0.contains(a));
    let c = reg.consumers[ci];
    let p1 = p0.difference(key_set(c.keys));
    assert(!p1.contains(b));
    match keyword_compile_spec(c.keyword, def, ctx) {
        Result::Err(e) => {
            assert(dispatch_spec(fields, 0, p0, reg, def, ctx, Seq::empty()) == Result::Err::<
                Seq<ValidatorView>,
                crate::error::SchemaErrorView,
            >(e));
        },
        Result::Ok(opt) => {
            let acc1: Seq<ValidatorView> = match opt {
                Option::Some(v) => seq![v],
                Option::None => Seq::empty(),
            };
            assert(dispatch_spec(fields, 2, p1, reg, def, ctx, acc1) == Result::Ok::<
                Seq<ValidatorView>,
                crate::error::SchemaErrorView,
            >(acc1));
            assert(dispatch_spec(fields, 1, p1, reg, def, ctx, acc1) == Result::Ok::<
                Seq<ValidatorView>,
                crate::error::SchemaErrorView,
            >(acc1));
            if opt is Some {
                assert(Seq::<ValidatorView>::empty().push(opt->0) =~= seq![opt->0]);
            }
        },
    }
}

/// An unresolved reference is inconclusive, not invalid: against a scope
/// lacking its URL, a reference validator reports no error and exactly
/// that URL as missing.
pub proof fn lemma_unresolved_ref_inconclusive(
    url: Seq<char>,
    inst: JVal,
    path: Seq<char>,
    scope: Map<Seq<char>, Seq<ValidatorView>>,
    fuel: nat,
)
    requires
        !scope.contains_key(url),
    ensures
        ({
            let st = run_one(ValidatorView::Ref { url }, inst, path, scope, fuel);
            &&& st.errors == Seq::<ValidationErrorView>::empty()
            &&& st.missing == seq![url]
        }),
{
}

/// An exclusive keyword suppresses its siblings: when the consumer picked
/// at step `i` compiles to a validator and declares itself exclusive, the
/// dispatch ends there, and no key after `i` is examined.
pub proof fn lemma_exclusive_stops_dispatch(
    fields: Seq<(Seq<char>, JVal)>,
    i: int,
    pending: Set<Seq<char>>,
    reg: RegistryView,
    def: JVal,
    ctx: CtxView,
    acc: Seq<ValidatorView>,
    v: ValidatorView,
)
    requires
        0 <= i < fields.len(),
        pending.contains(fields[i].0),
        reg.names.contains_key(fields[i].0),
        reg.names[fields[i].0] < reg.consumers.len(),
        keyword_compile_spec(reg.consumers[reg.names[fields[i].0] as int].keyword, def, ctx)
            == Result::Ok::<Option<ValidatorView>, crate::error::SchemaErrorView>(Option::Some(v)),
        is_exclusive_spec(reg.consumers[reg.names[fields[i].0] as int].keyword),
    ensures
        dispatch_spec(fields, i, pending, reg, def, ctx, acc) == Result::Ok::<
            Seq<ValidatorView>,
            crate::error::SchemaErrorView,
        >(acc.push(v)),
{
}

/// Appending two independent validators' states in either order yields
/// the same findings as multisets: aggregation order does not change the
/// reported error set or the missing set.
pub proof fn lemma_append_order_irrelevant(x: StateView, y: StateView)
    ensures
        state_append(x, y).errors.to_multiset() == state_append(y, x).errors.to_multiset(),
        state_append(x, y).missing.to_multiset() == state_append(y, x).missing.to_multiset(),
{
    vstd::seq_lib::lemma_multiset_commutative(x.errors, y.errors);
    vstd::seq_lib::lemma_multiset_commutative(y.errors, x.errors);
    vstd::seq_lib::lemma_multiset_commutative(x.missing, y.missing);
    vstd::seq_lib::lemma_multiset_commutative(y.missing, x.missing);
}

} // verus!

