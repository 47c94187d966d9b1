use asl_adapter::json::{json_to_text, Json};
use asl_adapter::text::{sort_by_key, str_leq};

#[test]
fn scalars_serialize_canonically() {
    assert_eq!(json_to_text(&Json::Null), "null");
    assert_eq!(json_to_text(&Json::Bool(true)), "true");
    assert_eq!(json_to_text(&Json::Bool(false)), "false");
    assert_eq!(json_to_text(&Json::Text("hi".to_string())), "\"hi\"");
}

#[test]
fn arrays_join_elements_with_single_commas() {
    assert_eq!(json_to_text(&Json::Arr(vec![])), "[]");
    assert_eq!(json_to_text(&Json::Arr(vec![Json::Bool(true)])), "[true]");
    let three = Json::Arr(vec![Json::Null, Json::Bool(false), Json::Text("x".to_string())]);
    assert_eq!(json_to_text(&three), "[null,false,\"x\"]");
}

#[test]
fn objects_join_entries_with_single_commas() {
    let obj = Json::Obj(vec![
        ("a".to_string(), Json::Arr(vec![Json::Bool(true), Json::Null])),
        ("b".to_string(), Json::Text("x".to_string())),
    ]);
    assert_eq!(json_to_text(&obj), "{\"a\":[true,null],\"b\":\"x\"}");
}

#[test]
fn nested_values_serialize_depth_first() {
    let inner = Json::Obj(vec![("k".to_string(), Json::Bool(false))]);
    let outer = Json::Obj(vec![("o".to_string(), Json::Arr(vec![inner]))]);
    assert_eq!(json_to_text(&outer), "{\"o\":[{\"k\":false}]}");
}

#[test]
fn lexicographic_order_on_slices() {
    assert!(str_leq("", ""));
    assert!(str_leq("", "a"));
    assert!(!str_leq("a", ""));
    assert!(str_leq("abc", "abd"));
    assert!(!str_leq("abd", "abc"));
    assert!(str_leq("ab", "abc"));
    assert!(!str_leq("abc", "ab"));
    assert!(str_leq("same", "same"));
}

#[test]
fn pairs_sort_by_key() {
    let v = vec![
        ("delta".to_string(), 4u8),
        ("alpha".to_string(), 1u8),
        ("charlie".to_string(), 3u8),
        ("bravo".to_string(), 2u8),
    ];
    let sorted = sort_by_key(v);
    let keys: Vec<&str> = sorted.iter().map(|p| p.0.as_str()).collect();
    assert_eq!(keys, vec!["alpha", "bravo", "charlie", "delta"]);
    let vals: Vec<u8> = sorted.iter().map(|p| p.1).collect();
    assert_eq!(vals, vec![1, 2, 3, 4]);
}
