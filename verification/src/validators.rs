//! The compiled validator tree and the state a validation run accumulates.
//!
//! A compiled schema node is a sequence of validators; validating an
//! instance against a node runs every validator and appends the resulting
//! states, so one pass reports all violations, not just the first. The
//! whole run is pinned down by the spec functions `run_one` and `run_seq`.

use vstd::prelude::*;

use crate::error::{ErrorKind, ValidationError, ValidationErrorView};
use crate::scope::Scope;
use crate::value::{jv, JVal, JsonValue, json_eq};

verus! {

/// A validator demanding that the instance equal a literal. The literal is
/// a clone of the schema's `const` value, so the validator outlives the
/// schema document.
#[derive(Debug)]
pub struct Const {
    pub item: JsonValue,
}

/// A validator delegating to another compiled schema, looked up in the
/// scope at validation time under an absolute URL.
#[derive(Debug)]
pub struct Ref {
    pub url: String,
}

/// One compiled validator.
#[derive(Debug)]
pub enum Validator {
    Const(Const),
    Ref(Ref),
}

/// The model of a validator.
pub enum ValidatorView {
    Const { item: JVal },
    Ref { url: Seq<char> },
}

impl View for Validator {
    type V = ValidatorView;

    open spec fn view(&self) -> ValidatorView {
        match self {
            Validator::Const(c) => ValidatorView::Const { item: jv(c.item) },
            Validator::Ref(r) => ValidatorView::Ref { url: r.url@ },
        }
    }
}

/// A compiled schema node: the validators produced for it, in order of
/// production.
pub type Validators = Vec<Validator>;

/// The models of a node's validators, index by index.
pub open spec fn views_of(vs: Seq<Validator>) -> Seq<ValidatorView> {
    Seq::new(vs.len(), |i: int| vs[i]@)
}

/// The result of one validation pass: the errors found, and the reference
/// URLs that could not be resolved. An empty error list together with a
/// non-empty missing list means the pass was inconclusive, not that the
/// instance is valid.
pub struct ValidationState {
    pub errors: Vec<ValidationError>,
    pub missing: Vec<String>,
}

/// The model of a `ValidationState`.
pub struct StateView {
    pub errors: Seq<ValidationErrorView>,
    pub missing: Seq<Seq<char>>,
}

impl View for ValidationState {
    type V = StateView;

    open spec fn view(&self) -> StateView {
        StateView {
            errors: Seq::new(self.errors@.len(), |i: int| self.errors@[i]@),
            missing: Seq::new(self.missing@.len(), |i: int| self.missing@[i]@),
        }
    }
}

/// The state of a run that found nothing.
pub open spec fn empty_state() -> StateView {
    StateView { errors: Seq::empty(), missing: Seq::empty() }
}

/// Two runs' states, the first's findings before the second's.
pub open spec fn state_append(a: StateView, b: StateView) -> StateView {
    StateView { errors: a.errors + b.errors, missing: a.missing + b.missing }
}

/// Appending states is associative.
pub proof fn lemma_state_append_assoc(a: StateView, b: StateView, c: StateView)
    ensures
        state_append(state_append(a, b), c) == state_append(a, state_append(b, c)),
{
    assert((a.errors + b.errors) + c.errors =~= a.errors + (b.errors + c.errors));
    assert((a.missing + b.missing) + c.missing =~= a.missing + (b.missing + c.missing));
}

impl ValidationState {
    /// A state with no findings.
    pub fn new() -> (r: ValidationState)
        ensures
            r@ == empty_state(),
    {
        let r = ValidationState { errors: Vec::new(), missing: Vec::new() };
        proof {
            assert(r@.errors =~= empty_state().errors);
            assert(r@.missing =~= empty_state().missing);
        }
        r
    }

    /// Whether the pass found no errors. A `true` result is conclusive only
    /// if the missing list is empty too.
    pub fn is_valid(&self) -> (r: bool)
        ensures
            r == (self@.errors.len() == 0),
    {
        self.errors.len() == 0
    }

    /// Merges another state's findings after this one's.
    pub fn append(&mut self, second: ValidationState)
        ensures
            final(self)@ == state_append(old(self)@, second@),
    {
        let ghost orig = second@;
        let mut second = second;
        self.errors.append(&mut second.errors);
        self.missing.append(&mut second.missing);
        proof {
            assert(self@.errors =~= state_append(old(self)@, orig).errors);
            assert(self@.missing =~= state_append(old(self)@, orig).missing);
        }
    }
}

/// What one validator finds on an instance. `fuel` bounds the depth of
/// reference delegation: a reference whose target would need more depth is
/// reported as missing, leaving the run inconclusive rather than wrong.
pub open spec fn run_one(
    v: ValidatorView,
    inst: JVal,
    path: Seq<char>,
    scope: Map<Seq<char>, Seq<ValidatorView>>,
    fuel: nat,
) -> StateView
    decreases fuel, 0nat, 0nat,
{
    match v {
        ValidatorView::Const { item } => StateView {
            errors: if inst == item {
                Seq::empty()
            } else {
                seq![ValidationErrorView { path, kind: ErrorKind::Const }]
            },
            missing: Seq::empty(),
        },
        ValidatorView::Ref { url } => {
            if !scope.contains_key(url) || fuel == 0 {
                StateView { errors: Seq::empty(), missing: seq![url] }
            } else {
                run_seq(scope[url], inst, path, scope, (fuel - 1) as nat)
            }
        },
    }
}

/// What a node's validators find together: each one's state, appended in
/// order.
pub open spec fn run_seq(
    vs: Seq<ValidatorView>,
    inst: JVal,
    path: Seq<char>,
    scope: Map<Seq<char>, Seq<ValidatorView>>,
    fuel: nat,
) -> StateView
    decreases fuel, vs.len(), 1nat,
{
    if vs.len() == 0 {
        empty_state()
    } else {
        state_append(
            run_one(vs[0], inst, path, scope, fuel),
            run_seq(vs.drop_first(), inst, path, scope, fuel),
        )
    }
}

/// The reference-delegation depth the public entry points use.
pub open spec fn default_fuel() -> nat {
    64
}

impl Validator {
    /// Runs this validator against an instance, resolving references in
    /// `scope`, with the default delegation depth.
    pub fn validate(&self, val: &JsonValue, path: &str, scope: &Scope) -> (r: ValidationState)
        ensures
            r@ == run_one(self@, val@, path@, scope@, default_fuel()),
    {
        validate_at(self, val, path, scope, 64)
    }
}

/// Runs a whole compiled node against an instance with the default
/// delegation depth.
pub fn validate_node(vs: &Validators, val: &JsonValue, path: &str, scope: &Scope) -> (r:
    ValidationState)
    ensures
        r@ == run_seq(views_of(vs@), val@, path@, scope@, default_fuel()),
{
    validate_seq_at(vs, val, path, scope, 64)
}

/// Runs one validator with an explicit delegation depth.
#[verifier::loop_isolation(false)]
fn validate_at(v: &Validator, val: &JsonValue, path: &str, scope: &Scope, fuel: u64) -> (r:
    ValidationState)
    ensures
        r@ == run_one(v@, val@, path@, scope@, fuel as nat),
    decreases fuel, 0nat,
{
    match v {
        Validator::Const(c) => {
            let mut st = ValidationState::new();
            if !json_eq(val, &c.item) {
                st.errors.push(ValidationError { path: path.to_owned(), kind: ErrorKind::Const });
            }
            proof {
                assert(st@.errors =~= run_one(v@, val@, path@, scope@, fuel as nat).errors);
                assert(st@.missing =~= run_one(v@, val@, path@, scope@, fuel as nat).missing);
            }
            st
        },
        Validator::Ref(rf) => {
            match scope.resolve(&rf.url) {
                Some(target) => {
                    if fuel == 0 {
                        let mut st = ValidationState::new();
                        st.missing.push(rf.url.clone());
                        proof {
                            assert(st@.errors =~= run_one(
                                v@,
                                val@,
                                path@,
                                scope@,
                                fuel as nat,
                            ).errors);
                            assert(st@.missing =~= run_one(
                                v@,
                                val@,
                                path@,
                                scope@,
                                fuel as nat,
                            ).missing);
                        }
                        st
                    } else {
                        validate_seq_at(target, val, path, scope, fuel - 1)
                    }
                },
                None => {
                    let mut st = ValidationState::new();
                    st.missing.push(rf.url.clone());
                    proof {
                        assert(st@.errors =~= run_one(v@, val@, path@, scope@, fuel as nat).errors);
                        assert(st@.missing =~= run_one(
                            v@,
                            val@,
                            path@,
                            scope@,
                            fuel as nat,
                        ).missing);
                    }
                    st
                },
            }
        },
    }
}

/// Runs each of a node's validators in order, appending their states, with
/// an explicit delegation depth.
#[verifier::loop_isolation(false)]
fn validate_seq_at(vs: &Validators, val: &JsonValue, path: &str, scope: &Scope, fuel: u64) -> (r:
    ValidationState)
    ensures
        r@ == run_seq(views_of(vs@), val@, path@, scope@, fuel as nat),
    decreases fuel, 1nat,
{
    let ghost m = views_of(vs@);
    let mut acc = ValidationState::new();
    proof {
        let whole = run_seq(m, val@, path@, scope@, fuel as nat);
        assert(m.skip(0) =~= m);
        assert(state_append(acc@, whole).errors =~= whole.errors);
        assert(state_append(acc@, whole).missing =~= whole.missing);
    }
    let mut i: usize = 0;
    while i < vs.len()
        invariant
            0 <= i <= vs.len(),
            state_append(acc@, run_seq(m.skip(i as int), val@, path@, scope@, fuel as nat))
                == run_seq(m, val@, path@, scope@, fuel as nat),
        decreases vs.len() - i,
    {
        proof {
            assert(m.skip(i as int).len() > 0);
            assert(m.skip(i as int)[0] == m[i as int]);
            assert(m.skip(i as int).drop_first() =~= m.skip(i + 1));
        }
        let st = validate_at(&vs[i], val, path, scope, fuel);
        proof {
            let rest = run_seq(m.skip(i + 1), val@, path@, scope@, fuel as nat);
            lemma_state_append_assoc(acc@, st@, rest);
        }
        acc.append(st);
        i = i + 1;
    }
    proof {
        assert(m.skip(i as int) =~= Seq::empty());
        let e = run_seq(m.skip(i as int), val@, path@, scope@, fuel as nat);
        assert(state_append(acc@, e).errors =~= acc@.errors);
        assert(state_append(acc@, e).missing =~= acc@.missing);
    }
    acc
}

} // verus!
