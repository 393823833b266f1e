//! The keyword registry: keyword compilers, the consumers that bind them to
//! keyword names, and the registry the schema compiler dispatches through.

use vstd::prelude::*;

use crate::error::{SchemaError, SchemaErrorView};
use crate::hashes::{map_entries, map_get, map_insert, map_new, set_elems, set_remove, NameSet,
    NameTable};
use crate::schema::{join_fragments, CtxView, WalkContext};
use crate::validators;
use crate::validators::{Validator, ValidatorView};
use crate::value::{get_of, str_views, JVal, JsonValue};

verus! {

/// What a keyword compiler hands back: no validator (its trigger key is
/// absent), one validator, or a compile error.
pub type KeywordResult = Result<Option<Validator>, SchemaError>;

/// A list of keyword names and the compiler bound to all of them.
pub type KeywordPair = (Vec<String>, Keyword);

/// The `const` keyword: compiles to a validator demanding that the
/// instance equal the keyword's value.
pub struct Const;

/// The `$ref` keyword: compiles to a reference validator holding the
/// keyword's value resolved against the context's base URL.
pub struct Ref;

/// One keyword compiler.
pub enum Keyword {
    Const(Const),
    Ref(Ref),
}

/// What a `$ref` resolves to against a base URL, or `None` when the base
/// is not an absolute URL or the reference cannot be parsed against it.
pub uninterp spec fn url_resolve(base: Seq<char>, reference: Seq<char>) -> Option<Seq<char>>;

/// Relies on url::Url::parse and url::ParseOptions::parse: parsing a base
/// URL and resolving a reference string against it depend on the two
/// strings alone.
#[verifier::external_body]
fn resolve_against(base: &String, reference: &String) -> (r: Option<String>)
    ensures
        match r {
            Some(u) => url_resolve(base@, reference@) == Some(u@),
            None => url_resolve(base@, reference@) is None,
        },
{
    match url::Url::parse(base) {
        Ok(b) => match url::Url::options().base_url(Some(&b)).parse(reference) {
            Ok(u) => Some(u.as_str().to_owned()),
            Err(_) => None,
        },
        Err(_) => None,
    }
}

/// The key that triggers the `const` keyword.
pub open spec fn const_key() -> Seq<char> {
    "const"@
}

/// The key that triggers the `$ref` keyword.
pub open spec fn ref_key() -> Seq<char> {
    "$ref"@
}

/// The detail a malformed non-string `$ref` reports.
pub open spec fn ref_not_string_detail() -> Seq<char> {
    "The value of $ref must be a string"@
}

/// The detail a `$ref` that does not resolve against the base URL reports.
pub open spec fn ref_bad_url_detail() -> Seq<char> {
    "The value of $ref must be an URI-encoded JSON Pointer"@
}

/// The model of a keyword compiler's result.
pub open spec fn keyword_result_view(r: KeywordResult) -> Result<
    Option<ValidatorView>,
    SchemaErrorView,
> {
    match r {
        Result::Ok(Option::None) => Result::Ok(Option::None),
        Result::Ok(Option::Some(v)) => Result::Ok(Option::Some(v@)),
        Result::Err(e) => Result::Err(e@),
    }
}

/// What the `const` keyword compiles to on a schema node: a validator
/// holding the `const` value, or nothing when the key is absent.
pub open spec fn const_compile_spec(def: JVal) -> Result<Option<ValidatorView>, SchemaErrorView> {
    match get_of(def, const_key()) {
        Option::Some(v) => Result::Ok(Option::Some(ValidatorView::Const { item: v })),
        Option::None => Result::Ok(Option::None),
    }
}

/// What the `$ref` keyword compiles to on a schema node: a reference
/// validator holding the resolved URL; a malformed error when the value is
/// not a string or does not resolve; nothing when the key is absent.
pub open spec fn ref_compile_spec(def: JVal, ctx: CtxView) -> Result<
    Option<ValidatorView>,
    SchemaErrorView,
> {
    match get_of(def, ref_key()) {
        Option::None => Result::Ok(Option::None),
        Option::Some(JVal::Str(s)) => match url_resolve(ctx.url, s) {
            Option::Some(u) => Result::Ok(Option::Some(ValidatorView::Ref { url: u })),
            Option::None => Result::Err(
                SchemaErrorView::Malformed {
                    path: join_fragments(ctx.fragment),
                    detail: ref_bad_url_detail(),
                },
            ),
        },
        Option::Some(_) => Result::Err(
            SchemaErrorView::Malformed {
                path: join_fragments(ctx.fragment),
                detail: ref_not_string_detail(),
            },
        ),
    }
}

/// What a keyword compiler yields on a schema node.
pub open spec fn keyword_compile_spec(kw: Keyword, def: JVal, ctx: CtxView) -> Result<
    Option<ValidatorView>,
    SchemaErrorView,
> {
    match kw {
        Keyword::Const(_) => const_compile_spec(def),
        Keyword::Ref(_) => ref_compile_spec(def, ctx),
    }
}

/// Whether a successful compilation of this keyword suppresses the node's
/// remaining keywords.
pub open spec fn is_exclusive_spec(kw: Keyword) -> bool {
    kw is Ref
}

impl Const {
    /// Compiles the `const` keyword: clones the keyword's value out of the
    /// schema document, so the validator outlives it.
    pub fn compile(&self, src: &JsonValue, ctx: &WalkContext) -> (r: KeywordResult)
        ensures
            keyword_result_view(r) == const_compile_spec(src@),
    {
        let key: String = "const".to_owned();
        match src.get(&key) {
            Option::Some(v) => Result::Ok(
                Option::Some(Validator::Const(validators::Const { item: v.deep_copy() })),
            ),
            Option::None => Result::Ok(Option::None),
        }
    }
}

impl Ref {
    /// Compiles the `$ref` keyword: the value must be a string that
    /// resolves against the context's base URL; resolution of the target
    /// schema itself is deferred to validation time.
    pub fn compile(&self, src: &JsonValue, ctx: &WalkContext) -> (r: KeywordResult)
        ensures
            keyword_result_view(r) == ref_compile_spec(src@, ctx@),
    {
        let key: String = "$ref".to_owned();
        match src.get(&key) {
            Option::None => Result::Ok(Option::None),
            Option::Some(v) => match v {
                JsonValue::Str(s) => match resolve_against(&ctx.url, s) {
                    Option::Some(u) => Result::Ok(
                        Option::Some(Validator::Ref(validators::Ref { url: u })),
                    ),
                    Option::None => Result::Err(
                        SchemaError::Malformed {
                            path: ctx.fragment_path(),
                            detail: "The value of $ref must be an URI-encoded JSON Pointer"
                                .to_owned(),
                        },
                    ),
                },
                _ => Result::Err(
                    SchemaError::Malformed {
                        path: ctx.fragment_path(),
                        detail: "The value of $ref must be a string".to_owned(),
                    },
                ),
            },
        }
    }
}

impl Keyword {
    /// Compiles this keyword against a schema node.
    pub fn compile(&self, src: &JsonValue, ctx: &WalkContext) -> (r: KeywordResult)
        ensures
            keyword_result_view(r) == keyword_compile_spec(*self, src@, ctx@),
    {
        match self {
            Keyword::Const(k) => k.compile(src, ctx),
            Keyword::Ref(k) => k.compile(src, ctx),
        }
    }

    /// Whether a successful compilation of this keyword suppresses the
    /// node's remaining keywords. `$ref` supersedes its siblings.
    pub fn is_exclusive(&self) -> (r: bool)
        ensures
            r == is_exclusive_spec(*self),
    {
        match self {
            Keyword::Ref(_) => true,
            _ => false,
        }
    }
}

/// The binding of one keyword compiler to the names that trigger it.
pub struct KeywordConsumer {
    pub keys: Vec<String>,
    pub keyword: Keyword,
}

/// The model of a `KeywordConsumer`.
pub struct ConsumerView {
    pub keys: Seq<Seq<char>>,
    pub keyword: Keyword,
}

impl View for KeywordConsumer {
    type V = ConsumerView;

    open spec fn view(&self) -> ConsumerView {
        ConsumerView { keys: str_views(self.keys@), keyword: self.keyword }
    }
}

/// The names of a list of keys, as a set.
pub open spec fn key_set(keys: Seq<Seq<char>>) -> Set<Seq<char>>
    decreases keys.len(),
{
    if keys.len() == 0 {
        Set::empty()
    } else {
        key_set(keys.drop_last()).insert(keys.last())
    }
}

impl KeywordConsumer {
    /// Removes every name bound to this consumer from a pending-key set,
    /// so the consumer runs at most once per schema node.
    #[verifier::loop_isolation(false)]
    pub fn consume(&self, set: &mut NameSet)
        ensures
            set_elems(*final(set)) == set_elems(*old(set)).difference(key_set(self@.keys)),
    {
        let ghost ks = str_views(self.keys@);
        let mut i: usize = 0;
        proof {
            assert(ks.take(0) =~= Seq::empty());
            assert(set_elems(*set) =~= set_elems(*set).difference(key_set(ks.take(0))));
        }
        while i < self.keys.len()
            invariant
                0 <= i <= self.keys.len(),
                set_elems(*set) == set_elems(*old(set)).difference(key_set(ks.take(i as int))),
            decreases self.keys.len() - i,
        {
            proof {
                assert(ks.take(i + 1).drop_last() =~= ks.take(i as int));
                assert(ks.take(i + 1).last() == ks[i as int]);
            }
            set_remove(set, &self.keys[i]);
            proof {
                assert(set_elems(*set) =~= set_elems(*old(set)).difference(
                    key_set(ks.take(i + 1)),
                ));
            }
            i = i + 1;
        }
        proof {
            assert(ks.take(i as int) =~= ks);
        }
    }
}

/// The model of a keyword registry.
pub struct RegistryView {
    pub consumers: Seq<ConsumerView>,
    pub names: Map<Seq<char>, usize>,
}

/// The keyword registry: a list of consumers, and a table from keyword
/// name to the consumer bound to it. Built once, then only read.
pub struct KeywordM {
    consumers: Vec<KeywordConsumer>,
    names: NameTable,
}

impl View for KeywordM {
    type V = RegistryView;

    closed spec fn view(&self) -> RegistryView {
        RegistryView {
            consumers: Seq::new(self.consumers@.len(), |i: int| self.consumers@[i]@),
            names: map_entries(self.names),
        }
    }
}

impl KeywordM {
    /// Every bound name points at a consumer of the registry.
    pub open spec fn wf(&self) -> bool {
        forall|k: Seq<char>| #[trigger]
            self@.names.contains_key(k) ==> self@.names[k] < self@.consumers.len()
    }

    /// A registry with no keywords bound.
    pub fn new() -> (r: KeywordM)
        ensures
            r.wf(),
            r@.consumers == Seq::<ConsumerView>::empty(),
            r@.names == Map::<Seq<char>, usize>::empty(),
    {
        let r = KeywordM { consumers: Vec::new(), names: map_new() };
        proof {
            assert(r@.consumers =~= Seq::<ConsumerView>::empty());
        }
        r
    }

    /// Looks the consumer bound to a keyword name up.
    pub fn lookup<'a>(&'a self, name: &String) -> (r: Option<&'a KeywordConsumer>)
        requires
            self.wf(),
        ensures
            match r {
                Some(c) => self@.names.contains_key(name@) && self@.names[name@]
                    < self@.consumers.len() && c@ == self@.consumers[self@.names[name@] as int],
                None => !self@.names.contains_key(name@),
            },
    {
        match map_get(&self.names, name) {
            Option::Some(i) => {
                proof {
                    assert(self@.names.contains_key(name@));
                    assert(self@.names[name@] == i);
                }
                Some(&self.consumers[i])
            },
            Option::None => None,
        }
    }
}

/// Appends one consumer for the pair's keyword and binds every name of the
/// pair to it, so that any of those names triggers that one consumer.
#[verifier::loop_isolation(false)]
pub fn decouple_keyword(keyword_pair: KeywordPair, map: &mut KeywordM)
    requires
        old(map).wf(),
    ensures
        final(map).wf(),
        final(map)@.consumers.len() == old(map)@.consumers.len() + 1,
        forall|j: int|
            0 <= j < old(map)@.consumers.len() ==> final(map)@.consumers[j]
                == old(map)@.consumers[j],
        final(map)@.consumers.last() == (ConsumerView {
            keys: str_views(keyword_pair.0@),
            keyword: keyword_pair.1,
        }),
        forall|k: Seq<char>| #[trigger]
            final(map)@.names.contains_key(k) <==> old(map)@.names.contains_key(k) || key_set(
                str_views(keyword_pair.0@),
            ).contains(k),
        forall|k: Seq<char>|
            key_set(str_views(keyword_pair.0@)).contains(k) ==> #[trigger] final(map)@.names[k]
                == old(map)@.consumers.len(),
        forall|k: Seq<char>|
            old(map)@.names.contains_key(k) && !key_set(str_views(keyword_pair.0@)).contains(k)
                ==> #[trigger] final(map)@.names[k] == old(map)@.names[k],
{
    let (keys, keyword) = keyword_pair;
    let ghost ks = str_views(keys@);
    let idx = map.consumers.len();
    let consumer = KeywordConsumer { keys, keyword };
    map.consumers.push(consumer);
    proof {
        assert(map@.consumers =~= old(map)@.consumers.push(
            ConsumerView { keys: ks, keyword: keyword_pair.1 },
        ));
    }
    let mut i: usize = 0;
    proof {
        assert(ks.take(0) =~= Seq::empty());
    }
    while i < map.consumers[idx].keys.len()
        invariant
            0 <= i <= map.consumers[idx as int].keys.len(),
            map.consumers@.len() == old(map)@.consumers.len() + 1,
            idx == old(map)@.consumers.len(),
            map@.consumers == old(map)@.consumers.push(
                ConsumerView { keys: ks, keyword: keyword_pair.1 },
            ),
            str_views(map.consumers@[idx as int].keys@) == ks,
            forall|k: Seq<char>| #[trigger]
                map@.names.contains_key(k) <==> old(map)@.names.contains_key(k) || key_set(
                    ks.take(i as int),
                ).contains(k),
            forall|k: Seq<char>|
                key_set(ks.take(i as int)).contains(k) ==> #[trigger] map@.names[k] == idx,
            forall|k: Seq<char>|
                old(map)@.names.contains_key(k) && !key_set(ks.take(i as int)).contains(k)
                    ==> #[trigger] map@.names[k] == old(map)@.names[k],
        decreases map.consumers[idx as int].keys.len() - i,
    {
        proof {
            assert(ks.take(i + 1).drop_last() =~= ks.take(i as int));
            assert(ks.take(i + 1).last() == ks[i as int]);
            assert(key_set(ks.take(i + 1)) =~= key_set(ks.take(i as int)).insert(ks[i as int]));
        }
        let ghost pre = map@.names;
        let name = map.consumers[idx].keys[i].clone();
        let ghost nm = name@;
        map_insert(&mut map.names, name, idx);
        proof {
            assert(nm == ks[i as int]);
            assert(map@.names == pre.insert(ks[i as int], idx));
            assert forall|k: Seq<char>| key_set(ks.take(i + 1)).contains(k) implies #[trigger] map@.names[k]
                == idx by {
                if k == ks[i as int] {
                } else {
                    assert(key_set(ks.take(i as int)).contains(k));
                    assert(pre[k] == idx);
                }
            }
            assert forall|k: Seq<char>|
                old(map)@.names.contains_key(k) && !key_set(ks.take(i + 1)).contains(k) implies #[trigger] map@.names[k]
                == old(map)@.names[k] by {
                assert(!key_set(ks.take(i as int)).contains(k));
                assert(k != ks[i as int]);
            }
        }
        i = i + 1;
    }
    proof {
        assert(ks.take(i as int) =~= ks);
    }
}

/// A registry holding the built-in keyword set: `const` and `$ref`.
pub fn default() -> (r: KeywordM)
    ensures
        r.wf(),
        r@.consumers.len() == 2,
        r@.consumers[0] == (ConsumerView { keys: seq![const_key()], keyword: Keyword::Const(Const) }),
        r@.consumers[1] == (ConsumerView { keys: seq![ref_key()], keyword: Keyword::Ref(Ref) }),
        forall|k: Seq<char>| #[trigger]
            r@.names.contains_key(k) <==> (k == const_key() || k == ref_key()),
        r@.names.contains_key(const_key()) && r@.names[const_key()] == 0,
        r@.names.contains_key(ref_key()) && r@.names[ref_key()] == 1,
{
    let mut m = KeywordM::new();
    let mut const_keys: Vec<String> = Vec::new();
    const_keys.push("const".to_owned());
    proof {
        assert(str_views(const_keys@) =~= seq![const_key()]);
        assert(seq![const_key()].drop_last() =~= Seq::<Seq<char>>::empty());
    }
    decouple_keyword((const_keys, Keyword::Const(Const)), &mut m);
    let mut ref_keys: Vec<String> = Vec::new();
    ref_keys.push("$ref".to_owned());
    proof {
        assert(str_views(ref_keys@) =~= seq![ref_key()]);
        assert(seq![ref_key()].drop_last() =~= Seq::<Seq<char>>::empty());
    }
    decouple_keyword((ref_keys, Keyword::Ref(Ref)), &mut m);
    proof {
        reveal_strlit("const");
        reveal_strlit("$ref");
        assert(("const")@.len() == 5);
        assert(("$ref")@.len() == 4);
        assert(const_key() != ref_key());
        assert(key_set(Seq::<Seq<char>>::empty()) =~= Set::<Seq<char>>::empty());
        assert(key_set(seq![const_key()]) =~= Set::<Seq<char>>::empty().insert(const_key()));
        assert(key_set(seq![ref_key()]) =~= Set::<Seq<char>>::empty().insert(ref_key()));
        assert(m@.consumers[1] == m@.consumers.last());
        assert forall|k: Seq<char>| #[trigger]
            m@.names.contains_key(k) <==> (k == const_key() || k == ref_key()) by {
            assert(key_set(seq![const_key()]).contains(k) <==> k == const_key());
            assert(key_set(seq![ref_key()]).contains(k) <==> k == ref_key());
        }
        assert(m@.names[const_key()] == 0) by {
            assert(key_set(seq![const_key()]).contains(const_key()));
            assert(!key_set(seq![ref_key()]).contains(const_key()));
        }
        assert(m@.names[ref_key()] == 1) by {
            assert(key_set(seq![ref_key()]).contains(ref_key()));
        }
    }
    m
}

} // verus!
