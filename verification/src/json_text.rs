//! Reading JSON values from text and writing them to text, through `serde_json`.

use vstd::prelude::*;
use vstd::utf8::encode_utf8;
use crate::json::{
    distinct_keys, is_finite, lemma_array_tree, lemma_array_wf, lemma_object_tree, lemma_object_wf,
    members, number_wf, tree_depth, tree_wf, trees, Json, JsonTree, Number,
};

verus! {

/// A value of `serde_json`.
#[verifier::external_type_specification]
#[verifier::external_body]
pub struct ExValue(serde_json::Value);

/// The content that a `serde_json` value holds.
pub uninterp spec fn value_tree(v: serde_json::Value) -> JsonTree;

/// What `serde_json::from_str` reads from a text: the value, or the text of the error.
pub uninterp spec fn json_of_text(s: Seq<char>) -> Result<JsonTree, Seq<char>>;

/// What `serde_json::from_slice` reads from bytes: the value, or the text of the error.
pub uninterp spec fn json_of_bytes(s: Seq<u8>) -> Result<JsonTree, Seq<char>>;

/// The text that `serde_json::to_string` writes for a value.
pub uninterp spec fn text_of_json(t: JsonTree) -> Seq<char>;

/// The bits of the double nearest to a number, as `serde_json::Number::as_f64` gives it.
pub uninterp spec fn nearest_double(n: Number) -> u64;

/// Whether reading gave the value `t`.
pub open spec fn holds(read: Result<JsonTree, Seq<char>>, t: JsonTree) -> bool {
    read matches Ok(got) && got == t
}

/// The deepest nesting that `serde_json` reads.
pub const MAX_DEPTH: u64 = 127;

/// Whether what a text holds, where it holds a value, is well-formed and nests no deeper than the
/// reader goes.
pub open spec fn readable(s: Seq<char>) -> bool {
    json_of_text(s) matches Ok(t) ==> tree_wf(t) && tree_depth(t) <= MAX_DEPTH
}

/// One level of a `serde_json` value.
pub enum Node {
    Null,
    Bool(bool),
    Number(Number),
    Text(String),
    Array(Vec<serde_json::Value>),
    Object(Vec<(String, serde_json::Value)>),
}

/// The content of one level, over the contents of the values below it.
pub open spec fn node_tree(n: Node) -> JsonTree {
    match n {
        Node::Null => JsonTree::Null,
        Node::Bool(b) => JsonTree::Bool(b),
        Node::Number(x) => JsonTree::Number(x),
        Node::Text(s) => JsonTree::Text(s@),
        Node::Array(vs) => JsonTree::Array(Seq::new(vs@.len(), |i: int| value_tree(vs@[i]))),
        Node::Object(es) => JsonTree::Object(
            Seq::new(es@.len(), |i: int| (es@[i].0@, value_tree(es@[i].1))),
        ),
    }
}

/// Takes a `serde_json::Value` apart: its variant, with what the variant holds. The members of
/// an object come in the order of the map. Of a number, `as_u64`, `as_i64` and `as_f64` tell
/// whether it is a natural number, a negative integer, or a double, which is finite.
#[verifier::external_body]
fn take_apart(v: serde_json::Value) -> (r: Node)
    ensures
        node_tree(r) == value_tree(v),
        tree_wf(node_tree(r)),
{
    match v {
        serde_json::Value::Null => Node::Null,
        serde_json::Value::Bool(b) => Node::Bool(b),
        serde_json::Value::Number(n) => Node::Number(match (n.as_u64(), n.as_i64(), n.as_f64()) {
            (Some(u), _, _) => Number::PosInt(u),
            (_, Some(i), _) => Number::NegInt(i),
            (_, _, x) => Number::Float(x.unwrap().to_bits()),
        }),
        serde_json::Value::String(s) => Node::Text(s),
        serde_json::Value::Array(vs) => Node::Array(vs),
        serde_json::Value::Object(es) => Node::Object(es.into_iter().collect()),
    }
}

/// Puts a `serde_json::Value` together from one level. The members of an object go into the map
/// in their order; no key may occur twice. A double goes in by `Number::from_f64`, which takes
/// the finite ones.
#[verifier::external_body]
fn put_together(n: Node) -> (r: serde_json::Value)
    requires
        match n {
            Node::Number(x) => number_wf(x),
            Node::Object(_) => distinct_keys(node_tree(n)->Object_0),
            _ => true,
        },
    ensures
        value_tree(r) == node_tree(n),
{
    match n {
        Node::Null => serde_json::Value::Null,
        Node::Bool(b) => serde_json::Value::Bool(b),
        Node::Number(Number::PosInt(u)) => u.into(),
        Node::Number(Number::NegInt(i)) => i.into(),
        Node::Number(Number::Float(bits)) => bytes::Buf::get_f64_le(&mut &bits.to_le_bytes()[..]).into(),
        Node::Text(s) => serde_json::Value::String(s),
        Node::Array(vs) => serde_json::Value::Array(vs),
        Node::Object(es) => serde_json::Value::Object(es.into_iter().collect()),
    }
}

/// `serde_json::from_str`: the value that the text holds, or the text of the error. The reader turns
/// down what nests too deep.
#[verifier::external_body]
fn read_text(s: &str) -> (r: Result<serde_json::Value, String>)
    ensures
        match r {
            Ok(v) => holds(json_of_text(s@), value_tree(v)),
            Err(e) => json_of_text(s@) matches Err(text) && text == e@,
        },
        r matches Ok(v) ==> tree_depth(value_tree(v)) <= MAX_DEPTH,
{
    serde_json::from_str(s).map_err(|e| e.to_string())
}

/// `serde_json::from_slice`: the value that the bytes hold, or the text of the error. The reader
/// turns down what nests too deep.
#[verifier::external_body]
fn read_bytes(s: &[u8]) -> (r: Result<serde_json::Value, String>)
    ensures
        match r {
            Ok(v) => holds(json_of_bytes(s@), value_tree(v)),
            Err(e) => json_of_bytes(s@) matches Err(text) && text == e@,
        },
        r matches Ok(v) ==> tree_depth(value_tree(v)) <= MAX_DEPTH,
{
    serde_json::from_slice(s).map_err(|e| e.to_string())
}

/// `serde_json::to_string`: the text of a value. Writing a value whose keys are strings does not
/// fail. Reading the text, or its UTF-8 bytes, gives the same value back, as long as it nests no
/// deeper than the reader goes.
#[verifier::external_body]
fn write_text(v: &serde_json::Value) -> (r: String)
    ensures
        r@ == text_of_json(value_tree(*v)),
        tree_depth(value_tree(*v)) <= MAX_DEPTH ==> holds(json_of_text(r@), value_tree(*v)),
        tree_depth(value_tree(*v)) <= MAX_DEPTH ==> holds(
            json_of_bytes(encode_utf8(r@)),
            value_tree(*v),
        ),
{
    serde_json::to_string(v).unwrap()
}

/// `serde_json::Number::as_f64`, as bits: a double is itself, an integer is rounded to the
/// nearest double, which is finite.
#[verifier::external_body]
pub(crate) fn number_as_double(n: Number) -> (bits: u64)
    requires
        number_wf(n),
    ensures
        bits == nearest_double(n),
        is_finite(bits),
        n matches Number::Float(b) ==> bits == b,
{
    let number = match n {
        Number::PosInt(u) => Some(u.into()),
        Number::NegInt(i) => Some(i.into()),
        Number::Float(b) => serde_json::Number::from_f64(bytes::Buf::get_f64_le(&mut &b.to_le_bytes()[..])),
    };
    number.unwrap().as_f64().unwrap().to_bits()
}

/// The library's form of a `serde_json` value.
pub fn from_value(v: serde_json::Value) -> (r: Json)
    ensures
        r.tree() == value_tree(v),
        tree_wf(r.tree()),
    decreases value_tree(v),
{
    let ghost t = value_tree(v);
    match take_apart(v) {
        Node::Null => Json::Null,
        Node::Bool(b) => Json::Bool(b),
        Node::Number(n) => Json::Number(n),
        Node::Text(s) => Json::Text(s),
        Node::Array(vs) => {
            let ghost all = vs@;
            let mut rest = vs;
            let mut out: Vec<Json> = Vec::new();
            while rest.len() > 0
                invariant
                    t == value_tree(v),
                    t is Array,
                    tree_wf(t),
                    t->Array_0 == Seq::new(all.len(), |i: int| value_tree(all[i])),
                    out.len() + rest.len() == all.len(),
                    rest@ == all.skip(out.len() as int),
                    trees(out@) == t->Array_0.take(out.len() as int),
                decreases rest.len(),
            {
                let ghost done = out.len() as int;
                let ghost before = trees(out@);
                let first = rest.remove(0);
                proof {
                    assert(first == all[done]);
                    assert(t->Array_0[done] == value_tree(first));
                    assert(decreases_to!(t => t->Array_0));
                    assert(decreases_to!(t->Array_0 => t->Array_0[done]));
                }
                let v = from_value(first);
                out.push(v);
                assert(trees(out@) =~= before.push(v.tree()));
                assert(trees(out@) =~= t->Array_0.take(out.len() as int));
                assert(rest@ =~= all.skip(out.len() as int));
            }
            proof {
                lemma_array_tree(out);
                assert(trees(out@) =~= t->Array_0);
            }
            Json::Array(out)
        },
        Node::Object(es) => {
            let ghost all = es@;
            let mut rest = es;
            let mut out: Vec<(String, Json)> = Vec::new();
            while rest.len() > 0
                invariant
                    t == value_tree(v),
                    t is Object,
                    tree_wf(t),
                    t->Object_0 == Seq::new(
                        all.len(),
                        |i: int| (all[i].0@, value_tree(all[i].1)),
                    ),
                    out.len() + rest.len() == all.len(),
                    rest@ == all.skip(out.len() as int),
                    members(out@) == t->Object_0.take(out.len() as int),
                decreases rest.len(),
            {
                let ghost done = out.len() as int;
                let ghost before = members(out@);
                let (key, first) = rest.remove(0);
                proof {
                    assert((key, first) == all[done]);
                    assert(t->Object_0[done].1 == value_tree(first));
                    assert(decreases_to!(t => t->Object_0));
                    assert(decreases_to!(t->Object_0 => t->Object_0[done]));
                    assert(decreases_to!(t->Object_0[done] => t->Object_0[done].1));
                }
                let v = from_value(first);
                let ghost entry = (key@, v.tree());
                out.push((key, v));
                assert(members(out@) =~= before.push(entry));
                assert(members(out@) =~= t->Object_0.take(out.len() as int));
                assert(rest@ =~= all.skip(out.len() as int));
            }
            proof {
                lemma_object_tree(out);
                assert(members(out@) =~= t->Object_0);
            }
            Json::Object(out)
        },
    }
}

/// The `serde_json` form of a value.
pub fn to_value(j: &Json) -> (r: serde_json::Value)
    requires
        tree_wf(j.tree()),
    ensures
        value_tree(r) == j.tree(),
    decreases j,
{
    match j {
        Json::Null => put_together(Node::Null),
        Json::Bool(b) => put_together(Node::Bool(*b)),
        Json::Number(n) => put_together(Node::Number(*n)),
        Json::Text(s) => put_together(Node::Text(s.clone())),
        Json::Array(vs) => {
            let mut out: Vec<serde_json::Value> = Vec::new();
            let mut i: usize = 0;
            proof {
                lemma_array_tree(*vs);
            }
            while i < vs.len()
                invariant
                    i <= vs.len(),
                    *j == Json::Array(*vs),
                    tree_wf(JsonTree::Array(trees(vs@))),
                    out.len() == i,
                    forall|k: int| 0 <= k < i ==> value_tree(#[trigger] out@[k]) == trees(vs@)[k],
                decreases vs.len() - i,
            {
                proof {
                    lemma_array_wf(trees(vs@), i as int);
                    crate::json::lemma_element_smaller(*vs, i as int);
                }
                let v = to_value(&vs[i]);
                out.push(v);
                i += 1;
            }
            assert(node_tree(Node::Array(out))->Array_0 =~= trees(vs@));
            put_together(Node::Array(out))
        },
        Json::Object(es) => {
            let mut out: Vec<(String, serde_json::Value)> = Vec::new();
            let mut i: usize = 0;
            proof {
                lemma_object_tree(*es);
            }
            while i < es.len()
                invariant
                    i <= es.len(),
                    *j == Json::Object(*es),
                    tree_wf(JsonTree::Object(members(es@))),
                    out.len() == i,
                    forall|k: int|
                        0 <= k < i ==> ((#[trigger] out@[k]).0@, value_tree(out@[k].1)) == members(
                            es@,
                        )[k],
                decreases es.len() - i,
            {
                proof {
                    lemma_object_wf(members(es@), i as int);
                    crate::json::lemma_member_smaller(*es, i as int);
                }
                let v = to_value(&es[i].1);
                out.push((es[i].0.clone(), v));
                i += 1;
            }
            assert(node_tree(Node::Object(out))->Object_0 =~= members(es@));
            put_together(Node::Object(out))
        },
    }
}

/// What reading gives, as content.
pub open spec fn read_result(r: Result<Json, String>) -> Result<JsonTree, Seq<char>> {
    match r {
        Ok(j) => Ok(j.tree()),
        Err(e) => Err(e@),
    }
}

/// Read a JSON value from text.
pub fn parse_json(s: &str) -> (r: Result<Json, String>)
    ensures
        read_result(r) == json_of_text(s@),
        r matches Ok(j) ==> tree_wf(j.tree()) && tree_depth(j.tree()) <= MAX_DEPTH,
        readable(s@),
{
    match read_text(s) {
        Ok(v) => Ok(from_value(v)),
        Err(e) => Err(e),
    }
}

/// Read a JSON value from bytes.
pub fn parse_json_bytes(s: &[u8]) -> (r: Result<Json, String>)
    ensures
        read_result(r) == json_of_bytes(s@),
        r matches Ok(j) ==> tree_wf(j.tree()) && tree_depth(j.tree()) <= MAX_DEPTH,
{
    match read_bytes(s) {
        Ok(v) => Ok(from_value(v)),
        Err(e) => Err(e),
    }
}

/// Write a JSON value as text.
pub fn print_json(j: &Json) -> (r: String)
    requires
        tree_wf(j.tree()),
    ensures
        r@ == text_of_json(j.tree()),
        tree_depth(j.tree()) <= MAX_DEPTH ==> holds(json_of_text(r@), j.tree()),
        tree_depth(j.tree()) <= MAX_DEPTH ==> holds(json_of_bytes(encode_utf8(r@)), j.tree()),
{
    write_text(&to_value(j))
}

/// What is printed is read back, as text and as bytes, as long as it nests no deeper than the reader
/// goes.
pub proof fn printed_json_is_read_back(
    j: Json,
    s: String,
    text: &str,
    bytes: &[u8],
    read: Result<Json, String>,
    read_bytes_back: Result<Json, String>,
)
    requires
        call_ensures(print_json, (&j,), s),
        text@ == s@,
        bytes@ == encode_utf8(s@),
        tree_depth(j.tree()) <= MAX_DEPTH,
        call_ensures(parse_json, (text,), read),
        call_ensures(parse_json_bytes, (bytes,), read_bytes_back),
    ensures
        read matches Ok(k) && k.tree() == j.tree(),
        read_bytes_back matches Ok(k) && k.tree() == j.tree(),
{
}

} // verus!
