use haraltr::json::{clone_json, deep_merge, Json, JsonNumber};

fn s(x: &str) -> Json {
    Json::Str(x.to_string())
}

fn obj(entries: Vec<(&str, Json)>) -> Json {
    Json::Object(entries.into_iter().map(|(k, v)| (k.to_string(), v)).collect())
}

fn float(x: f64) -> Json {
    Json::Number(JsonNumber::Float(x.to_bits()))
}

fn get<'a>(j: &'a Json, key: &str) -> Option<&'a Json> {
    match j {
        Json::Object(entries) => entries.iter().find(|(k, _)| k == key).map(|(_, v)| v),
        _ => None,
    }
}

fn as_float(j: &Json) -> Option<f64> {
    match j {
        Json::Number(JsonNumber::Float(b)) => Some(f64::from_bits(*b)),
        _ => None,
    }
}

#[test]
fn patch_updates_only_the_named_field() {
    let base = obj(vec![
        ("proximity", obj(vec![("rpl_threshold", float(15.0)), ("lock_count", Json::Number(JsonNumber::PosInt(4)))])),
        ("web", obj(vec![("port", Json::Number(JsonNumber::PosInt(15999)))])),
    ]);
    let patch = obj(vec![("proximity", obj(vec![("rpl_threshold", float(20.0))]))]);
    let merged = deep_merge(base, &patch);
    let prox = get(&merged, "proximity").unwrap();
    assert_eq!(as_float(get(prox, "rpl_threshold").unwrap()), Some(20.0));
    assert!(matches!(get(prox, "lock_count"), Some(Json::Number(JsonNumber::PosInt(4)))));
    let web = get(&merged, "web").unwrap();
    assert!(matches!(get(web, "port"), Some(Json::Number(JsonNumber::PosInt(15999)))));
}

#[test]
fn patch_adds_missing_keys() {
    let base = obj(vec![("a", Json::Bool(true))]);
    let patch = obj(vec![("b", obj(vec![("c", Json::Null)]))]);
    let merged = deep_merge(base, &patch);
    assert!(matches!(get(&merged, "a"), Some(Json::Bool(true))));
    let b = get(&merged, "b").unwrap();
    assert!(matches!(get(b, "c"), Some(Json::Null)));
}

#[test]
fn non_object_patch_replaces_the_base() {
    let base = obj(vec![("a", Json::Bool(true))]);
    let merged = deep_merge(base, &Json::Array(vec![s("x"), Json::Null]));
    match merged {
        Json::Array(items) => {
            assert_eq!(items.len(), 2);
            assert!(matches!(&items[0], Json::Str(t) if t == "x"));
        }
        other => panic!("unexpected {:?}", other),
    }
    let merged = deep_merge(s("old"), &obj(vec![("k", s("v"))]));
    assert!(matches!(get(&merged, "k"), Some(Json::Str(t)) if t == "v"));
}

#[test]
fn scalar_in_the_patch_replaces_an_object_in_the_base() {
    let base = obj(vec![("web", obj(vec![("port", Json::Number(JsonNumber::PosInt(1)))]))]);
    let merged = deep_merge(base, &obj(vec![("web", Json::Null)]));
    assert!(matches!(get(&merged, "web"), Some(Json::Null)));
}

#[test]
fn clone_is_a_deep_copy() {
    let j = obj(vec![("a", Json::Array(vec![Json::Number(JsonNumber::NegInt(-3)), s("t")]))]);
    let c = clone_json(&j);
    match get(&c, "a") {
        Some(Json::Array(items)) => {
            assert!(matches!(items[0], Json::Number(JsonNumber::NegInt(-3))));
            assert!(matches!(&items[1], Json::Str(t) if t == "t"));
        }
        other => panic!("unexpected {:?}", other),
    }
}

#[test]
fn shown_config_has_no_password_hash() {
    let config = obj(vec![
        ("web", obj(vec![("port", Json::Number(JsonNumber::PosInt(15999))), ("password_hash", s("$argon2id$secret"))])),
        ("adapter_index", Json::Number(JsonNumber::PosInt(0))),
    ]);
    let shown = haraltr::json::redact_password_hash(config);
    let web = get(&shown, "web").unwrap();
    assert!(get(web, "password_hash").is_none());
    assert!(matches!(get(web, "port"), Some(Json::Number(JsonNumber::PosInt(15999)))));
    assert!(matches!(get(&shown, "adapter_index"), Some(Json::Number(JsonNumber::PosInt(0)))));
}

#[test]
fn redaction_leaves_other_values_alone() {
    let shown = haraltr::json::redact_password_hash(obj(vec![("web", s("x")), ("password_hash", s("y"))]));
    assert!(matches!(get(&shown, "web"), Some(Json::Str(t)) if t == "x"));
    assert!(matches!(get(&shown, "password_hash"), Some(Json::Str(t)) if t == "y"));
    assert!(matches!(haraltr::json::redact_password_hash(Json::Bool(true)), Json::Bool(true)));
}
