//! The schema compiler: walks a schema document, dispatches each key
//! through the keyword registry, and assembles the produced validators
//! into a tree. `WalkContext` carries the fragment path and base URL that
//! keyword compilers need.

use vstd::prelude::*;
use vstd::string::StringExecFns;

use crate::error::{SchemaError, SchemaErrorView};
use crate::hashes::{set_contains, set_elems, set_insert, set_new};
use crate::keywords::{key_set, keyword_compile_spec, is_exclusive_spec, KeywordM, RegistryView};
use crate::validators::{views_of, Validator, ValidatorView, Validators};
use crate::value::{jv, jv_fields, lemma_jv_fields, str_views, JVal, JsonValue};
use crate::value::clone_strings;

verus! {

/// Per-node compile-time state: the fragment path from the document root,
/// and the base URL relative `$ref` values resolve against. Descending
/// into a subschema derives a new context; a context is never mutated.
pub struct WalkContext {
    pub fragment: Vec<String>,
    pub url: String,
}

/// The model of a `WalkContext`.
pub struct CtxView {
    pub fragment: Seq<Seq<char>>,
    pub url: Seq<char>,
}

impl View for WalkContext {
    type V = CtxView;

    open spec fn view(&self) -> CtxView {
        CtxView { fragment: str_views(self.fragment@), url: self.url@ }
    }
}

/// The fragment segments joined with `/`, the path compile errors report.
pub open spec fn join_fragments(parts: Seq<Seq<char>>) -> Seq<char>
    decreases parts.len(),
{
    if parts.len() == 0 {
        Seq::empty()
    } else if parts.len() == 1 {
        parts[0]
    } else {
        join_fragments(parts.drop_last()) + seq!['/'] + parts.last()
    }
}

impl WalkContext {
    /// A root context: empty fragment path, the document's base URL.
    pub fn new(url: String) -> (r: WalkContext)
        ensures
            r@.fragment == Seq::<Seq<char>>::empty(),
            r@.url == url@,
    {
        let r = WalkContext { fragment: Vec::new(), url };
        proof {
            assert(r@.fragment =~= Seq::<Seq<char>>::empty());
        }
        r
    }

    /// The context of a subschema: the fragment extended by one segment,
    /// the base URL kept.
    pub fn descend(&self, segment: String) -> (r: WalkContext)
        ensures
            r@.fragment == self@.fragment.push(segment@),
            r@.url == self@.url,
    {
        let mut fragment = clone_strings(&self.fragment);
        fragment.push(segment);
        let r = WalkContext { fragment, url: self.url.clone() };
        proof {
            assert(r@.fragment =~= self@.fragment.push(segment@));
        }
        r
    }

    /// A context at the same node whose base URL is replaced, as when a
    /// subschema declares its own identifier.
    pub fn with_url(&self, url: String) -> (r: WalkContext)
        ensures
            r@.fragment == self@.fragment,
            r@.url == url@,
    {
        let fragment = clone_strings(&self.fragment);
        let r = WalkContext { fragment, url };
        proof {
            assert(r@.fragment =~= self@.fragment);
        }
        r
    }

    /// The fragment path joined with `/`, for error locations.
    #[verifier::loop_isolation(false)]
    pub fn fragment_path(&self) -> (r: String)
        ensures
            r@ == join_fragments(self@.fragment),
    {
        let ghost parts = str_views(self.fragment@);
        let mut out = String::new();
        let mut i: usize = 0;
        proof {
            assert(parts.take(0) =~= Seq::empty());
        }
        while i < self.fragment.len()
            invariant
                0 <= i <= self.fragment.len(),
                out@ == join_fragments(parts.take(i as int)),
            decreases self.fragment.len() - i,
        {
            proof {
                assert(parts.take(i + 1).drop_last() =~= parts.take(i as int));
                assert(parts.take(i + 1).last() == parts[i as int]);
            }
            if i > 0 {
                out.append("/");
                proof {
                    reveal_strlit("/");
                    assert(("/")@ =~= seq!['/']);
                }
            }
            out.append(self.fragment[i].as_str());
            proof {
                if i == 0 {
                    assert(parts.take(1)[0] == parts[0]);
                    assert(Seq::<char>::empty() + parts[0] =~= parts[0]);
                }
            }
            i = i + 1;
        }
        proof {
            assert(parts.take(i as int) =~= parts);
        }
        out
    }
}

/// The keys of a schema object's fields, as a set: the pending set the
/// dispatch starts from.
pub open spec fn all_keys(fields: Seq<(Seq<char>, JVal)>) -> Set<Seq<char>>
    decreases fields.len(),
{
    if fields.len() == 0 {
        Set::empty()
    } else {
        all_keys(fields.drop_last()).insert(fields.last().0)
    }
}

/// One step of the dispatch over a schema object's keys, from field `i`
/// on. A key still pending whose consumer the registry knows is compiled
/// exactly once: the consumer's names all leave the pending set, an error
/// aborts the node, an exclusive keyword's success ends the dispatch, and
/// an unknown key is passed over.
pub open spec fn dispatch_spec(
    fields: Seq<(Seq<char>, JVal)>,
    i: int,
    pending: Set<Seq<char>>,
    reg: RegistryView,
    def: JVal,
    ctx: CtxView,
    acc: Seq<ValidatorView>,
) -> Result<Seq<ValidatorView>, SchemaErrorView>
    decreases fields.len() - i,
{
    if i < 0 || i >= fields.len() {
        Result::Ok(acc)
    } else {
        let k = fields[i].0;
        if pending.contains(k) && reg.names.contains_key(k) && reg.names[k] < reg.consumers.len() {
            let c = reg.consumers[reg.names[k] as int];
            match keyword_compile_spec(c.keyword, def, ctx) {
                Result::Err(e) => Result::Err(e),
                Result::Ok(opt) => {
                    let pending2 = pending.difference(key_set(c.keys));
                    match opt {
                        Option::Some(v) => if is_exclusive_spec(c.keyword) {
                            Result::Ok(acc.push(v))
                        } else {
                            dispatch_spec(fields, i + 1, pending2, reg, def, ctx, acc.push(v))
                        },
                        Option::None => dispatch_spec(fields, i + 1, pending2, reg, def, ctx, acc),
                    }
                },
            }
        } else {
            dispatch_spec(fields, i + 1, pending, reg, def, ctx, acc)
        }
    }
}

/// What compiling a schema document yields: the dispatch over an object's
/// keys, and no validators at all for any other document.
pub open spec fn compile_spec(def: JVal, reg: RegistryView, ctx: CtxView) -> Result<
    Seq<ValidatorView>,
    SchemaErrorView,
> {
    match def {
        JVal::Obj(fields) => dispatch_spec(fields, 0, all_keys(fields), reg, def, ctx, Seq::empty()),
        _ => Result::Ok(Seq::empty()),
    }
}

/// The model of a compilation result.
pub open spec fn compile_result_view(r: Result<Validators, SchemaError>) -> Result<
    Seq<ValidatorView>,
    SchemaErrorView,
> {
    match r {
        Result::Ok(vs) => Result::Ok(views_of(vs@)),
        Result::Err(e) => Result::Err(e@),
    }
}

/// Compiles one schema document into a validator tree, dispatching each
/// key through the registry. Unknown keywords are passed over; a malformed
/// keyword aborts the whole node.
#[verifier::loop_isolation(false)]
pub fn compile(def: &JsonValue, ctx: &WalkContext, registry: &KeywordM) -> (r: Result<
    Validators,
    SchemaError,
>)
    requires
        registry.wf(),
    ensures
        compile_result_view(r) == compile_spec(def@, registry@, ctx@),
{
    match def {
        JsonValue::Obj(fields) => {
            proof {
                lemma_jv_fields(fields@);
            }
            let ghost gf = jv_fields(fields@);
            let mut pending = set_new();
            let mut i: usize = 0;
            proof {
                assert(gf.take(0) =~= Seq::empty());
                assert(set_elems(pending) =~= all_keys(gf.take(0)));
            }
            while i < fields.len()
                invariant
                    0 <= i <= fields.len(),
                    set_elems(pending) == all_keys(gf.take(i as int)),
                decreases fields.len() - i,
            {
                proof {
                    assert(gf.take(i + 1).drop_last() =~= gf.take(i as int));
                    assert(gf.take(i + 1).last() == gf[i as int]);
                }
                set_insert(&mut pending, fields[i].0.clone());
                i = i + 1;
            }
            proof {
                assert(gf.take(i as int) =~= gf);
            }
            let ghost goal = compile_spec(def@, registry@, ctx@);
            let mut out: Vec<Validator> = Vec::new();
            proof {
                assert(views_of(out@) =~= Seq::<ValidatorView>::empty());
            }
            let mut j: usize = 0;
            while j < fields.len()
                invariant
                    0 <= j <= fields.len(),
                    dispatch_spec(
                        gf,
                        j as int,
                        set_elems(pending),
                        registry@,
                        def@,
                        ctx@,
                        views_of(out@),
                    ) == goal,
                decreases fields.len() - j,
            {
                let key = &fields[j].0;
                if set_contains(&pending, key) {
                    match registry.lookup(key) {
                        Option::Some(consumer) => {
                            match consumer.keyword.compile(def, ctx) {
                                Result::Err(e) => {
                                    return Result::Err(e);
                                },
                                Result::Ok(opt) => {
                                    consumer.consume(&mut pending);
                                    match opt {
                                        Option::Some(v) => {
                                            let exclusive = consumer.keyword.is_exclusive();
                                            let ghost prev = views_of(out@);
                                            out.push(v);
                                            proof {
                                                assert(views_of(out@) =~= prev.push(v@));
                                            }
                                            if exclusive {
                                                return Result::Ok(out);
                                            }
                                        },
                                        Option::None => {},
                                    }
                                },
                            }
                        },
                        Option::None => {},
                    }
                }
                j = j + 1;
            }
            Result::Ok(out)
        },
        _ => {
            let out: Vec<Validator> = Vec::new();
            proof {
                assert(views_of(out@) =~= Seq::<ValidatorView>::empty());
            }
            Result::Ok(out)
        },
    }
}

} // verus!
