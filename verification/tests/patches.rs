use convex_backend::edit::{remove_at_path, set_at_path, PatchFault};
use convex_backend::json::{Json, Number};
use convex_backend::json_text::{parse_json, parse_json_bytes, print_json};
use convex_backend::packed::JsonPackedValue;
use convex_backend::patch::{
    apply_op, apply_patch, diff_to_patch, diff_value, is_patch_worth_it, maybe_patch, PatchError,
};
use convex_backend::pointer::{escape_pointer, parse_pointer};
use convex_backend::value::{ConvexArray, ConvexValue};

fn number(n: i64) -> ConvexValue {
    ConvexValue::Int64(n)
}

fn packed(v: ConvexValue) -> JsonPackedValue {
    JsonPackedValue::pack(&v)
}

fn array(vs: Vec<ConvexValue>) -> ConvexValue {
    ConvexValue::Array(ConvexArray::new(vs))
}

fn json(s: &str) -> Json {
    parse_json(s).unwrap()
}

#[test]
fn test_small_value_no_patch() {
    let a = packed(number(1));
    let b = packed(number(2));
    assert!(maybe_patch(&a, &b).is_none());
}

#[test]
fn test_large_value_patch() {
    let arr_a: Vec<ConvexValue> = (0..200).map(|i| number(i as i64)).collect();
    let arr_b: Vec<ConvexValue> =
        (0..200).map(|i| if i == 50 { number(9999i64) } else { number(i as i64) }).collect();
    let a = packed(array(arr_a));
    let b = packed(array(arr_b));
    let patch = maybe_patch(&a, &b).expect("should produce patch");
    let patch_str = print_json(&patch);
    assert!(patch_str.len() < 200, "patch len {patch_str}");
    let applied = apply_patch(a.as_str(), &patch).unwrap();
    assert_eq!(applied, b.as_str());
}

#[test]
fn test_patch_ratio_fallback() {
    let arr_a: Vec<ConvexValue> = (0..300).map(|i| number(i as i64)).collect();
    let arr_b: Vec<ConvexValue> = (300..600).map(|i| number(i as i64)).collect();
    let a = packed(array(arr_a));
    let b = packed(array(arr_b));
    if let Some(patch) = maybe_patch(&a, &b) {
        let patch_len = print_json(&patch).len();
        assert!(is_patch_worth_it(patch_len, b.as_str().len()));
    }
}

#[test]
fn test_object_patch() {
    let obj_a = ConvexValue::try_from(json(r#"{"a":1,"b":2,"c": {"x": 1}}"#)).unwrap();
    let obj_b = ConvexValue::try_from(json(r#"{"a":1,"b":99,"c": {"x": 2}}"#)).unwrap();
    let a = packed(obj_a);
    let b = packed(obj_b);
    let patch = diff_to_patch(a.as_str(), b.as_str()).unwrap();
    let applied = apply_patch(a.as_str(), &patch).unwrap();
    assert_eq!(applied, b.as_str());
    match &patch {
        Json::Array(ops) => assert_eq!(ops.len(), 2),
        other => panic!("{other:?}"),
    }
}

#[test]
fn patches_restore_values() {
    let texts = [
        "null",
        "1",
        "[]",
        "[1,2,3]",
        "[1,[2,{\"a\":null}],3,4]",
        "{}",
        "{\"a\":1}",
        "{\"a\":{\"b\":{\"c\":[1,2]}},\"d~e/f\":\"x\",\"\":0}",
        "{\"d~e/f\":\"y\",\"\":[0],\"z\":false}",
        "\"text\"",
        "1.5",
    ];
    for a in texts {
        for b in texts {
            let patch = diff_to_patch(a, b).unwrap();
            if a == b {
                assert_eq!(print_json(&patch), "[]");
            }
            let applied = apply_patch(a, &patch).unwrap();
            assert!(json(&applied).equals(&json(b)), "{a} -> {b}: {applied}");
        }
    }
}

#[test]
fn diffs_are_exact() {
    let patch = diff_to_patch("{\"a\":1,\"b\":[1,2]}", "{\"b\":[1],\"c\":true}").unwrap();
    assert_eq!(
        print_json(&patch),
        "[{\"op\":\"remove\",\"path\":\"/a\"},{\"op\":\"remove\",\"path\":\"/b/1\"},\
         {\"op\":\"add\",\"path\":\"/c\",\"value\":true}]"
    );
    let mut ops = Vec::new();
    diff_value("/x", &json("1"), &json("2"), &mut ops);
    assert_eq!(
        print_json(&Json::Array(ops)),
        "[{\"op\":\"replace\",\"path\":\"/x\",\"value\":2}]"
    );
    assert!(diff_to_patch("1", "not json").is_none());
    assert!(diff_to_patch("not json", "1").is_none());
}

#[test]
fn patches_have_to_pay() {
    assert!(is_patch_worth_it(799, 1000));
    assert!(!is_patch_worth_it(800, 1000));
    assert!(!is_patch_worth_it(0, 0));
    assert!(is_patch_worth_it(usize::MAX / 2, usize::MAX));
}

#[test]
fn small_texts_are_never_patched() {
    let long = "x".repeat(1100);
    let same = ConvexValue::String(long.clone());
    let a = packed(array(vec![ConvexValue::String(long.clone()), number(1)]));
    let b = packed(array(vec![ConvexValue::String(long), number(2)]));
    assert!(maybe_patch(&a, &b).is_some());
    assert!(maybe_patch(&packed(same), &b).is_none());
    assert!(maybe_patch(&b, &b).is_none());
    let short = packed(array(vec![ConvexValue::String("x".repeat(900)), number(1)]));
    let short2 = packed(array(vec![ConvexValue::String("x".repeat(900)), number(2)]));
    assert!(maybe_patch(&short, &short2).is_none());
}

#[test]
fn pointers_escape() {
    assert_eq!(escape_pointer("a~b/c"), "a~0b~1c");
    assert_eq!(parse_pointer("/a~0b~1c/d").unwrap(), vec!["a~b/c", "d"]);
    assert_eq!(parse_pointer("/~01").unwrap(), vec!["~1"]);
    assert_eq!(parse_pointer("").unwrap(), Vec::<String>::new());
    assert_eq!(parse_pointer("/").unwrap(), vec![""]);
    assert!(parse_pointer("a").is_none());
}

fn set(doc: &str, path: &str, value: &str, is_add: bool) -> Result<String, PatchFault> {
    set_at_path(json(doc), path, json(value), is_add).map(|j| print_json(&j))
}

fn remove(doc: &str, path: &str) -> Result<String, PatchFault> {
    remove_at_path(json(doc), path).map(|j| print_json(&j))
}

#[test]
fn edits_reach_their_place() {
    assert_eq!(set("1", "", "2", false).unwrap(), "2");
    assert_eq!(set("[1,2]", "/1", "5", false).unwrap(), "[1,5]");
    assert_eq!(set("[1,2]", "/2", "5", true).unwrap(), "[1,2,5]");
    assert_eq!(set("[1,2]", "/0", "5", true).unwrap(), "[5,1,2]");
    assert_eq!(set("{\"a\":{\"b\":1}}", "/a/b", "5", false).unwrap(), "{\"a\":{\"b\":5}}");
    assert_eq!(set("{}", "/a", "5", true).unwrap(), "{\"a\":5}");
    assert_eq!(remove("[1,2,3]", "/1").unwrap(), "[1,3]");
    assert_eq!(remove("{\"a\":1,\"b\":2,\"c\":3}", "/a").unwrap(), "{\"c\":3,\"b\":2}");
}

#[test]
fn edits_fail_where_nothing_is() {
    assert_eq!(set("1", "x", "2", false).unwrap_err(), PatchFault::PointerWithoutSlash);
    assert_eq!(set("[1]", "/x", "2", false).unwrap_err(), PatchFault::BadIndex);
    assert_eq!(set("[1]", "/-", "2", true).unwrap_err(), PatchFault::BadIndex);
    assert_eq!(set("[1]", "/5", "2", true).unwrap_err(), PatchFault::AddOutOfBounds);
    assert_eq!(set("[1]", "/5", "2", false).unwrap_err(), PatchFault::MissingElement);
    assert_eq!(set("{}", "/a/b", "2", false).unwrap_err(), PatchFault::MissingMember);
    assert_eq!(set("1", "/a", "2", false).unwrap_err(), PatchFault::NotAContainer);
    assert_eq!(remove("1", "").unwrap_err(), PatchFault::CannotRemoveRoot);
    assert_eq!(remove("{}", "/a").unwrap_err(), PatchFault::MissingMember);
}

fn applied(doc: &str, patch: &str) -> Result<String, PatchError> {
    apply_patch(doc, &json(patch))
}

#[test]
fn bad_patches_are_refused() {
    let fault = |patch: &str| match applied("{\"a\":1}", patch) {
        Err(PatchError::Fault(f)) => f,
        other => panic!("{other:?}"),
    };
    assert_eq!(fault("{}"), PatchFault::NotAnArray);
    assert_eq!(fault("[{}]"), PatchFault::MissingOp);
    assert_eq!(fault("[{\"op\":\"remove\"}]"), PatchFault::MissingPath);
    assert_eq!(fault("[{\"op\":\"add\",\"path\":\"/b\"}]"), PatchFault::MissingValue);
    assert_eq!(fault("[{\"op\":\"move\",\"path\":\"/b\"}]"), PatchFault::UnsupportedOp);
    assert!(matches!(applied("{", "[]"), Err(PatchError::Document(_))));
    assert_eq!(applied("{\"a\": 1}", "[]").unwrap(), "{\"a\":1}");
}

#[test]
fn single_operations_apply() {
    let doc = apply_op(json("{}"), &json("{\"op\":\"add\",\"path\":\"/a\",\"value\":[1]}")).unwrap();
    let doc = apply_op(doc, &json("{\"op\":\"replace\",\"path\":\"/a/0\",\"value\":2}")).unwrap();
    assert_eq!(print_json(&doc), "{\"a\":[2]}");
}

#[test]
fn numbers_compare_as_numbers() {
    assert!(json("{\"a\":1,\"b\":2}").equals(&json("{\"b\":2,\"a\":1}")));
    assert!(!json("1").equals(&json("1.0")));
    assert!(matches!(json("-0"), Json::Number(Number::Float(_))));
    assert!(json("0.0").equals(&json("-0.0")));
    let copy = json("[1,{\"a\":null}]").duplicate();
    assert_eq!(print_json(&copy), "[1,{\"a\":null}]");
}

#[test]
fn removing_undoes_adding() {
    for (doc, path) in [
        ("{\"a\":1,\"b\":{\"c\":[1,2,3]}}", "/d"),
        ("{\"a\":1,\"b\":{\"c\":[1,2,3]}}", "/b/d"),
        ("{\"a\":1,\"b\":{\"c\":[1,2,3]}}", "/b/c/1"),
        ("[1,2]", "/2"),
    ] {
        let added = set_at_path(json(doc), path, json("[7]"), true).unwrap();
        assert_ne!(print_json(&added), doc);
        assert_eq!(print_json(&remove_at_path(added, path).unwrap()), doc);
    }
}

#[test]
fn patched_texts_mean_the_new_ones() {
    let cases = [
        ("{\"a\":1,\"b\":[1,2,3]}", "{\"b\":[1,9],\"c\":{\"d\":null}}"),
        ("[1,[2]]", "{\"x\":[]}"),
        ("{\"a\":1,\"b\":2}", "{\"b\":2,\"a\":1}"),
        ("7", "7"),
    ];
    for (old_text, new_text) in cases {
        let patch = diff_to_patch(old_text, new_text).unwrap();
        let applied = apply_patch(old_text, &patch).unwrap();
        assert!(json(&applied).equals(&json(new_text)), "{applied}");
        let ops = match &patch {
            Json::Array(ops) => ops,
            other => panic!("{other:?}"),
        };
        assert_eq!(ops.is_empty(), json(old_text).equals(&json(new_text)));
    }
    let deep = |n: usize| "[".repeat(n) + &"]".repeat(n);
    let patch = diff_to_patch("0", &deep(127)).unwrap();
    assert_eq!(apply_patch("0", &patch).unwrap(), deep(127));
    assert!(diff_to_patch("0", &deep(128)).is_none());
    assert!(parse_json(&deep(128)).is_err());
    assert!(parse_json_bytes(deep(128).as_bytes()).is_err());
}
