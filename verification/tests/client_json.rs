use deepseek_adapter::client::Client;
use deepseek_adapter::client::ClientBuilder;
use deepseek_adapter::json::merge;
use deepseek_adapter::json::Json;

fn obj(entries: Vec<(&str, Json)>) -> Json {
    Json::Obj(entries.into_iter().map(|(k, v)| (k.to_string(), v)).collect())
}

#[test]
fn bearer_header_value() {
    let client = Client::new("secret-key", "https://api.deepseek.com", None);
    assert_eq!(client.auth_header_value, "Bearer secret-key");
    assert_eq!(client.base_url, "https://api.deepseek.com");
    assert!(client.beta_header_value.is_none());
}

#[test]
fn beta_flags_join_with_commas() {
    let client = Client::new("k", "https://api.deepseek.com", Some(vec!["alpha", "beta2"]));
    assert_eq!(client.beta_header_value.as_deref(), Some("alpha,beta2"));
}

#[test]
fn builder_defaults_and_overrides() {
    let client = ClientBuilder::new("k").build();
    assert_eq!(client.base_url, "https://api.deepseek.com");
    let client = ClientBuilder::new("k")
        .base_url("http://localhost:8080/")
        .beta("a")
        .beta("b")
        .build();
    assert_eq!(client.base_url, "http://localhost:8080/");
    assert_eq!(client.auth_header_value, "Bearer k");
    assert_eq!(client.beta_header_value.as_deref(), Some("a,b"));
}

#[test]
fn request_url_trims_extra_slashes() {
    let client = Client::new("k", "https://api.deepseek.com//", None);
    assert_eq!(
        client.request_url("/chat/completions"),
        "https://api.deepseek.com/chat/completions"
    );
    let client = Client::new("k", "https://api.deepseek.com", None);
    assert_eq!(
        client.request_url("chat/completions"),
        "https://api.deepseek.com/chat/completions"
    );
}

#[test]
fn merge_replaces_scalars_and_adds_keys() {
    let base = obj(vec![("a", Json::Int(1)), ("b", Json::Int(2))]);
    let over = obj(vec![("b", Json::Int(3)), ("c", Json::Int(4))]);
    let merged = merge(base, over);
    let expected = obj(vec![("a", Json::Int(1)), ("b", Json::Int(3)), ("c", Json::Int(4))]);
    assert_eq!(merged, expected);
}

#[test]
fn merge_recurses_into_shared_objects() {
    let base = obj(vec![(
        "options",
        obj(vec![("x", Json::Int(1)), ("y", Json::Int(2))]),
    )]);
    let over = obj(vec![(
        "options",
        obj(vec![("y", Json::Int(3)), ("z", Json::Int(4))]),
    )]);
    let merged = merge(base, over);
    let expected = obj(vec![(
        "options",
        obj(vec![("x", Json::Int(1)), ("y", Json::Int(3)), ("z", Json::Int(4))]),
    )]);
    assert_eq!(merged, expected, "shared objects merge key by key, not wholesale");
}

#[test]
fn merge_replaces_object_with_scalar() {
    let base = obj(vec![("options", obj(vec![("x", Json::Int(1))]))]);
    let over = obj(vec![("options", Json::Bool(false))]);
    let merged = merge(base, over);
    assert_eq!(merged, obj(vec![("options", Json::Bool(false))]));
}

#[test]
fn non_object_override_replaces_wholesale() {
    let base = obj(vec![("a", Json::Int(1))]);
    let merged = merge(base, Json::Str("flat".to_string()));
    assert_eq!(merged, Json::Str("flat".to_string()));
}

#[test]
fn deep_clone_reproduces_the_tree() {
    let value = obj(vec![
        ("n", Json::Num(serde_json::Number::from_f64(1.25).unwrap())),
        ("list", Json::Arr(vec![Json::Null, Json::Bool(true), Json::UInt(u64::MAX)])),
        ("nested", obj(vec![("s", Json::Str("text".to_string()))])),
    ]);
    let copy = value.deep_clone();
    assert_eq!(copy, value);
}

#[test]
fn get_scans_front_to_back() {
    let value = obj(vec![("a", Json::Int(1)), ("b", Json::Int(2))]);
    assert_eq!(value.get("b"), Some(&Json::Int(2)));
    assert_eq!(value.get("missing"), None);
    assert_eq!(Json::Null.get("a"), None);
}
