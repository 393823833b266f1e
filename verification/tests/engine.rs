use schema_engine::error::ErrorKind;
use schema_engine::keywords::{decouple_keyword, Const as ConstKeyword, Keyword, Ref as RefKeyword, KeywordM};
use schema_engine::schema::{compile, WalkContext};
use schema_engine::scope::Scope;
use schema_engine::validators::validate_node;
use schema_engine::value::{json_eq, JsonValue};

const BASE: &str = "http://example.com/schema.json";

fn obj(fields: Vec<(&str, JsonValue)>) -> JsonValue {
    JsonValue::Obj(fields.into_iter().map(|(k, v)| (k.to_string(), v)).collect())
}

fn root_ctx() -> WalkContext {
    WalkContext::new(BASE.to_string())
}

fn compile_default(
    schema: &JsonValue,
) -> Result<Vec<schema_engine::validators::Validator>, schema_engine::error::SchemaError> {
    let registry = schema_engine::keywords::default();
    compile(schema, &root_ctx(), &registry)
}

#[test]
fn const_match_valid() {
    let schema = obj(vec![("const", JsonValue::Int(42))]);
    let tree = compile_default(&schema).expect("schema compiles");
    assert_eq!(tree.len(), 1);
    let scope = Scope::new();
    let state = validate_node(&tree, &JsonValue::Int(42), "", &scope);
    assert!(state.is_valid());
    assert!(state.errors.is_empty());
    assert!(state.missing.is_empty());
}

#[test]
fn const_mismatch_one_error() {
    let schema = obj(vec![("const", JsonValue::Int(42))]);
    let tree = compile_default(&schema).expect("schema compiles");
    let scope = Scope::new();
    let state = validate_node(&tree, &JsonValue::Str("42".to_string()), "", &scope);
    assert!(!state.is_valid());
    assert_eq!(state.errors.len(), 1);
    assert_eq!(state.errors[0].path, "");
    assert_eq!(state.errors[0].kind, ErrorKind::Const);
    assert!(state.missing.is_empty());
}

#[test]
fn const_nested_values_compared_structurally() {
    let schema = obj(vec![(
        "const",
        JsonValue::Arr(vec![JsonValue::Int(1), obj(vec![("k", JsonValue::Bool(true))])]),
    )]);
    let tree = compile_default(&schema).expect("schema compiles");
    let scope = Scope::new();
    let same = JsonValue::Arr(vec![JsonValue::Int(1), obj(vec![("k", JsonValue::Bool(true))])]);
    let other = JsonValue::Arr(vec![JsonValue::Int(1), obj(vec![("k", JsonValue::Bool(false))])]);
    assert!(validate_node(&tree, &same, "", &scope).is_valid());
    assert!(!validate_node(&tree, &other, "", &scope).is_valid());
}

#[test]
fn unknown_keyword_accepts_everything() {
    let schema = obj(vec![("unknownKeyword", JsonValue::Bool(true))]);
    let tree = compile_default(&schema).expect("unknown keyword must not abort compilation");
    assert_eq!(tree.len(), 0);
    let scope = Scope::new();
    for instance in [
        JsonValue::Null,
        JsonValue::Bool(false),
        JsonValue::Int(7),
        JsonValue::Str("x".to_string()),
        JsonValue::Arr(vec![]),
    ] {
        let state = validate_node(&tree, &instance, "", &scope);
        assert!(state.is_valid());
        assert!(state.missing.is_empty());
    }
}

#[test]
fn non_object_schema_accepts_everything() {
    let tree = compile_default(&JsonValue::Int(5)).expect("non-object schema compiles");
    assert_eq!(tree.len(), 0);
    let scope = Scope::new();
    assert!(validate_node(&tree, &JsonValue::Str("a".to_string()), "", &scope).is_valid());
}

#[test]
fn consumer_two_names_invoked_once() {
    // One consumer bound to the names "a" and "b": a schema holding both
    // must invoke it exactly once, so exactly one validator is produced.
    let mut registry = KeywordM::new();
    decouple_keyword(
        (
            vec!["a".to_string(), "b".to_string()],
            Keyword::Const(ConstKeyword),
        ),
        &mut registry,
    );
    let schema = obj(vec![
        ("a", JsonValue::Int(1)),
        ("b", JsonValue::Int(2)),
        ("const", JsonValue::Int(7)),
    ]);
    let tree = compile(&schema, &root_ctx(), &registry).expect("schema compiles");
    assert_eq!(tree.len(), 1);
    let scope = Scope::new();
    // A second invocation would have produced a second validator and a
    // second error here.
    let state = validate_node(&tree, &JsonValue::Int(8), "", &scope);
    assert_eq!(state.errors.len(), 1);
    assert!(validate_node(&tree, &JsonValue::Int(7), "", &scope).is_valid());
}

#[test]
fn malformed_ref_non_string() {
    let schema = obj(vec![("$ref", JsonValue::Int(123))]);
    let err = compile_default(&schema).expect_err("non-string $ref must not compile");
    assert_eq!(err.path().as_str(), "");
    assert_eq!(err.detail().as_str(), "The value of $ref must be a string");
}

#[test]
fn malformed_ref_path_matches_fragment() {
    let schema = obj(vec![("$ref", JsonValue::Bool(true))]);
    let ctx = root_ctx()
        .descend("definitions".to_string())
        .descend("x".to_string());
    let registry = schema_engine::keywords::default();
    let err = compile(&schema, &ctx, &registry).expect_err("non-string $ref must not compile");
    assert_eq!(err.path().as_str(), "definitions/x");
}

#[test]
fn malformed_ref_unresolvable_url() {
    // Without an absolute base URL a fragment-only reference cannot
    // resolve.
    let schema = obj(vec![("$ref", JsonValue::Str("#/definitions/foo".to_string()))]);
    let ctx = WalkContext::new(String::new());
    let registry = schema_engine::keywords::default();
    let err = compile(&schema, &ctx, &registry).expect_err("unresolvable $ref must not compile");
    assert_eq!(err.detail().as_str(), "The value of $ref must be an URI-encoded JSON Pointer");
}

#[test]
fn unresolved_ref_missing_list() {
    let schema = obj(vec![("$ref", JsonValue::Str("#/definitions/foo".to_string()))]);
    let tree = compile_default(&schema).expect("schema compiles");
    assert_eq!(tree.len(), 1);
    let scope = Scope::new();
    let state = validate_node(&tree, &JsonValue::Int(1), "", &scope);
    // No error: the result is inconclusive, not valid, and a caller-level
    // completeness check must consult the missing list.
    assert!(state.errors.is_empty());
    assert_eq!(state.missing.len(), 1);
    assert_eq!(state.missing[0], "http://example.com/schema.json#/definitions/foo");
    assert!(!state.missing.is_empty(), "inconclusive result must stay visible");
}

#[test]
fn resolved_ref_delegates() {
    let target_url = "http://example.com/schema.json#/definitions/foo".to_string();
    let target_schema = obj(vec![("const", JsonValue::Int(42))]);
    let registry = schema_engine::keywords::default();
    let target_tree = compile(&target_schema, &root_ctx(), &registry).expect("target compiles");

    let mut scope = Scope::new();
    scope.register(target_url, target_tree);

    let schema = obj(vec![("$ref", JsonValue::Str("#/definitions/foo".to_string()))]);
    let tree = compile(&schema, &root_ctx(), &registry).expect("schema compiles");

    let good = validate_node(&tree, &JsonValue::Int(42), "", &scope);
    assert!(good.is_valid());
    assert!(good.missing.is_empty());

    let bad = validate_node(&tree, &JsonValue::Int(43), "", &scope);
    assert_eq!(bad.errors.len(), 1);
    assert_eq!(bad.errors[0].kind, ErrorKind::Const);
    assert!(bad.missing.is_empty());
}

#[test]
fn exclusive_ref_suppresses_const() {
    // `$ref` declares itself exclusive: the sibling `const` that follows
    // it in dispatch order is not compiled.
    assert!(Keyword::Ref(RefKeyword).is_exclusive());
    assert!(!Keyword::Const(ConstKeyword).is_exclusive());
    let schema = obj(vec![
        ("$ref", JsonValue::Str("#/a".to_string())),
        ("const", JsonValue::Int(5)),
    ]);
    let tree = compile_default(&schema).expect("schema compiles");
    assert_eq!(tree.len(), 1);
    let scope = Scope::new();
    let state = validate_node(&tree, &JsonValue::Int(6), "", &scope);
    assert!(state.errors.is_empty(), "the suppressed const must not run");
    assert_eq!(state.missing.len(), 1);
}

#[test]
fn compile_idempotent() {
    let schema = obj(vec![
        ("const", JsonValue::Int(3)),
        ("unknownKeyword", JsonValue::Null),
    ]);
    let t1 = compile_default(&schema).expect("first compilation");
    let t2 = compile_default(&schema).expect("second compilation");
    let scope = Scope::new();
    for instance in [JsonValue::Int(3), JsonValue::Int(4), JsonValue::Null] {
        let s1 = validate_node(&t1, &instance, "", &scope);
        let s2 = validate_node(&t2, &instance, "", &scope);
        assert_eq!(s1.errors.len(), s2.errors.len());
        assert_eq!(s1.missing.len(), s2.missing.len());
        for (a, b) in s1.errors.iter().zip(s2.errors.iter()) {
            assert_eq!(a.path, b.path);
            assert_eq!(a.kind, b.kind);
        }
        for (a, b) in s1.missing.iter().zip(s2.missing.iter()) {
            assert_eq!(a, b);
        }
    }
}

#[test]
fn append_order_gives_same_error_set() {
    let registry = schema_engine::keywords::default();
    let ta = compile(&obj(vec![("const", JsonValue::Int(1))]), &root_ctx(), &registry).unwrap();
    let tb = compile(&obj(vec![("const", JsonValue::Int(2))]), &root_ctx(), &registry).unwrap();
    let scope = Scope::new();
    let instance = JsonValue::Int(3);
    let sa = validate_node(&ta, &instance, "a", &scope);
    let sb = validate_node(&tb, &instance, "b", &scope);

    let mut first = schema_engine::validators::ValidationState::new();
    first.append(validate_node(&ta, &instance, "a", &scope));
    first.append(validate_node(&tb, &instance, "b", &scope));

    let mut second = schema_engine::validators::ValidationState::new();
    second.append(sb);
    second.append(sa);

    let mut left: Vec<String> = first.errors.iter().map(|e| e.path.clone()).collect();
    let mut right: Vec<String> = second.errors.iter().map(|e| e.path.clone()).collect();
    left.sort();
    right.sort();
    assert_eq!(left, right);
    assert_eq!(first.errors.len(), 2);
}

#[test]
fn validation_state_basics() {
    let state = schema_engine::validators::ValidationState::new();
    assert!(state.is_valid());
    assert!(state.errors.is_empty());
    assert!(state.missing.is_empty());
}

#[test]
fn scope_register_and_resolve() {
    let mut scope = Scope::new();
    let url = "http://example.com/a".to_string();
    assert!(scope.resolve(&url).is_none());
    scope.register(url.clone(), Vec::new());
    let found = scope.resolve(&url).expect("registered schema resolves");
    assert_eq!(found.len(), 0);
    assert!(scope.resolve(&"http://example.com/b".to_string()).is_none());
}

#[test]
fn scope_register_shadows() {
    let registry = schema_engine::keywords::default();
    let t1 = compile(&obj(vec![("const", JsonValue::Int(1))]), &root_ctx(), &registry).unwrap();
    let mut scope = Scope::new();
    let url = "http://example.com/a".to_string();
    scope.register(url.clone(), Vec::new());
    scope.register(url.clone(), t1);
    let found = scope.resolve(&url).expect("registered schema resolves");
    assert_eq!(found.len(), 1);
}

#[test]
fn json_eq_structural() {
    let a = obj(vec![("x", JsonValue::Arr(vec![JsonValue::Int(1), JsonValue::Null]))]);
    let b = obj(vec![("x", JsonValue::Arr(vec![JsonValue::Int(1), JsonValue::Null]))]);
    let c = obj(vec![("x", JsonValue::Arr(vec![JsonValue::Int(2), JsonValue::Null]))]);
    assert!(json_eq(&a, &b));
    assert!(!json_eq(&a, &c));
    assert!(!json_eq(&a, &JsonValue::Null));
    assert!(json_eq(&a, &a.deep_copy()));
}

#[test]
fn walk_context_paths() {
    let ctx = root_ctx();
    assert_eq!(ctx.fragment_path(), "");
    let child = ctx.descend("properties".to_string());
    assert_eq!(child.fragment_path(), "properties");
    let grandchild = child.descend("name".to_string());
    assert_eq!(grandchild.fragment_path(), "properties/name");
    let rebased = grandchild.with_url("http://example.com/other.json".to_string());
    assert_eq!(rebased.fragment_path(), "properties/name");
}

#[test]
fn value_get_finds_first_field() {
    let v = obj(vec![("a", JsonValue::Int(1)), ("a", JsonValue::Int(2))]);
    let key = "a".to_string();
    let got = v.get(&key).expect("field exists");
    assert!(json_eq(got, &JsonValue::Int(1)));
    assert!(v.get(&"b".to_string()).is_none());
    assert!(JsonValue::Null.get(&key).is_none());
}

#[test]
fn validator_validate_directly() {
    let schema = obj(vec![("const", JsonValue::Int(9))]);
    let tree = compile_default(&schema).expect("schema compiles");
    let scope = Scope::new();
    let state = tree[0].validate(&JsonValue::Int(9), "items/0", &scope);
    assert!(state.is_valid());
    let state2 = tree[0].validate(&JsonValue::Int(8), "items/0", &scope);
    assert_eq!(state2.errors.len(), 1);
    assert_eq!(state2.errors[0].path, "items/0");
}

#[test]
fn ref_chain_delegates_through_two_schemas() {
    let registry = schema_engine::keywords::default();
    let inner_url = "http://example.com/inner.json";
    let outer_url = "http://example.com/outer.json";
    let inner = compile(&obj(vec![("const", JsonValue::Int(1))]), &root_ctx(), &registry).unwrap();
    let outer = compile(
        &obj(vec![("$ref", JsonValue::Str(inner_url.to_string()))]),
        &root_ctx(),
        &registry,
    )
    .unwrap();
    let mut scope = Scope::new();
    scope.register(inner_url.to_string(), inner);
    scope.register(outer_url.to_string(), outer);

    let schema = obj(vec![("$ref", JsonValue::Str(outer_url.to_string()))]);
    let tree = compile(&schema, &root_ctx(), &registry).unwrap();
    let good = validate_node(&tree, &JsonValue::Int(1), "", &scope);
    assert!(good.is_valid());
    assert!(good.missing.is_empty());
    let bad = validate_node(&tree, &JsonValue::Int(2), "", &scope);
    assert_eq!(bad.errors.len(), 1);
}

#[test]
fn cyclic_ref_terminates_inconclusive() {
    // A schema referring to itself: delegation stops at the depth bound
    // and reports the URL as missing instead of looping.
    let registry = schema_engine::keywords::default();
    let url = "http://example.com/self.json";
    let tree = compile(
        &obj(vec![("$ref", JsonValue::Str(url.to_string()))]),
        &root_ctx(),
        &registry,
    )
    .unwrap();
    let tree_for_scope = compile(
        &obj(vec![("$ref", JsonValue::Str(url.to_string()))]),
        &root_ctx(),
        &registry,
    )
    .unwrap();
    let mut scope = Scope::new();
    scope.register(url.to_string(), tree_for_scope);
    let state = validate_node(&tree, &JsonValue::Int(0), "", &scope);
    assert!(state.errors.is_empty());
    assert_eq!(state.missing.len(), 1);
    assert_eq!(state.missing[0], url);
}
