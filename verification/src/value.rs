//! Values, and the bijection between them and a subset of JSON.
//!
//! - JSON numbers are 64-bit floating point numbers.
//! - A 64-bit integer is written as its little-endian bytes in base64: `{"$integer": ".."}`.
//! - Bytes are written in base64: `{"$bytes": ".."}`.
//! - A floating point number that JSON cannot hold is written as its little-endian bytes in
//!   base64: `{"$float": ".."}`.
//! - The keys of an object do not start with `$`.

use vstd::bytes::{
    lemma_auto_spec_u64_to_from_le_bytes, spec_u64_from_le_bytes, spec_u64_to_le_bytes,
    u64_from_le_bytes, u64_to_le_bytes,
};
use vstd::prelude::*;
use vstd::string::*;
use vstd::utf8::encode_utf8;
use crate::base64_text::{base64_of, bytes_of_base64, decode_base64, decodes_to, encode_base64};
use crate::edit::{lemma_array_of_wf, lemma_object_of_wf};
use crate::json::{
    distinct_keys, is_finite, lemma_array_tree, lemma_array_wf, lemma_element_smaller,
    lemma_member_smaller, lemma_object_tree, lemma_object_wf, members, tree_depth, tree_wf, trees,
    Json, JsonTree, Members, Number, NEGATIVE_ZERO_BITS,
};
use crate::json_text::{
    holds, json_of_bytes, json_of_text, nearest_double, number_as_double, parse_json,
    parse_json_bytes, print_json, text_of_json, MAX_DEPTH,
};
use crate::order::{
    lemma_text_less_irreflexive, lemma_text_less_total, lemma_text_less_transitive, less_text,
    text_less,
};
use crate::text::{
    concat, decimal, decimal_text, occurs, parts_occur_where_they_stand, same_text,
};

verus! {

/// A value. A floating point number is held as its bits.
#[derive(Debug)]
pub enum ConvexValue {
    Null,
    Int64(i64),
    Float64(u64),
    Boolean(bool),
    String(String),
    Bytes(Vec<u8>),
    Array(ConvexArray),
    Object(ConvexObject),
}

/// An array of values.
#[derive(Debug)]
pub struct ConvexArray {
    items: Vec<ConvexValue>,
}

/// An object: fields in the order of their names, none of which starts with `$`.
#[derive(Debug)]
pub struct ConvexObject {
    fields: Vec<(String, ConvexValue)>,
}

/// The content of a value.
pub enum ValueTree {
    Null,
    Int64(i64),
    Float64(u64),
    Boolean(bool),
    String(Seq<char>),
    Bytes(Seq<u8>),
    Array(Seq<ValueTree>),
    Object(Seq<(Seq<char>, ValueTree)>),
}

/// The fields of an object, as content.
pub type Fields = Seq<(Seq<char>, ValueTree)>;

/// Whether a field may not have this name.
pub open spec fn reserved(name: Seq<char>) -> bool {
    name.len() > 0 && name[0] == '$'
}

/// Whether names stand in order, none twice, and none is reserved.
pub open spec fn names_wf(names: Seq<Seq<char>>) -> bool {
    &&& forall|i: int, j: int| 0 <= i < j < names.len() ==> text_less(names[i], names[j])
    &&& forall|i: int| 0 <= i < names.len() ==> !reserved(#[trigger] names[i])
}

/// The names of some fields.
pub open spec fn field_names(fs: Fields) -> Seq<Seq<char>> {
    fs.map_values(|f: (Seq<char>, ValueTree)| f.0)
}

/// Whether the objects in a value have names that stand in order and are not reserved.
pub open spec fn value_wf(v: ValueTree) -> bool
    decreases v,
{
    match v {
        ValueTree::Array(vs) => forall|i: int| 0 <= i < vs.len() ==> value_wf(#[trigger] vs[i]),
        ValueTree::Object(fs) => {
            &&& names_wf(field_names(fs))
            &&& forall|i: int| 0 <= i < fs.len() ==> value_wf((#[trigger] fs[i]).1)
        },
        _ => true,
    }
}

impl ConvexArray {
    /// The items.
    pub closed spec fn items(self) -> Seq<ConvexValue> {
        self.items@
    }
}

impl ConvexObject {
    /// The fields.
    pub closed spec fn fields(self) -> Seq<(String, ConvexValue)> {
        self.fields@
    }

    #[verifier::type_invariant]
    spec fn inv(self) -> bool {
        names_wf(names_of(self.fields@))
    }
}

/// The names of some fields.
pub open spec fn names_of(fs: Seq<(String, ConvexValue)>) -> Seq<Seq<char>> {
    Seq::new(fs.len(), |i: int| fs[i].0@)
}

impl ConvexValue {
    /// The content of a value.
    pub open spec fn tree(self) -> ValueTree
        decreases self,
    {
        match self {
            ConvexValue::Null => ValueTree::Null,
            ConvexValue::Int64(n) => ValueTree::Int64(n),
            ConvexValue::Float64(bits) => ValueTree::Float64(bits),
            ConvexValue::Boolean(b) => ValueTree::Boolean(b),
            ConvexValue::String(s) => ValueTree::String(s@),
            ConvexValue::Bytes(b) => ValueTree::Bytes(b@),
            ConvexValue::Array(a) => ValueTree::Array(
                Seq::new(
                    a.items().len(),
                    |i: int|
                        if 0 <= i < a.items().len() {
                            a.items()[i].tree()
                        } else {
                            ValueTree::Null
                        },
                ),
            ),
            ConvexValue::Object(o) => ValueTree::Object(
                Seq::new(
                    o.fields().len(),
                    |i: int|
                        if 0 <= i < o.fields().len() {
                            (o.fields()[i].0@, o.fields()[i].1.tree())
                        } else {
                            (Seq::<char>::empty(), ValueTree::Null)
                        },
                ),
            ),
        }
    }
}

/// The contents of some values.
pub open spec fn value_trees(vs: Seq<ConvexValue>) -> Seq<ValueTree> {
    Seq::new(vs.len(), |i: int| vs[i].tree())
}

/// The contents of some fields.
pub open spec fn field_trees(fs: Seq<(String, ConvexValue)>) -> Fields {
    Seq::new(fs.len(), |i: int| (fs[i].0@, fs[i].1.tree()))
}

impl ConvexArray {
    /// The content of an array.
    pub open spec fn tree(self) -> ValueTree {
        ValueTree::Array(value_trees(self.items()))
    }
}

impl ConvexObject {
    /// The content of an object.
    pub open spec fn tree(self) -> ValueTree {
        ValueTree::Object(field_trees(self.fields()))
    }
}

/// The content of an array value is that of its array.
pub proof fn lemma_array_value(a: ConvexArray)
    ensures
        ConvexValue::Array(a).tree() == a.tree(),
{
    assert(ConvexValue::Array(a).tree()->Array_0 =~= value_trees(a.items()));
}

/// The content of an object value is that of its object.
pub proof fn lemma_object_value(o: ConvexObject)
    ensures
        ConvexValue::Object(o).tree() == o.tree(),
{
    assert(ConvexValue::Object(o).tree()->Object_0 =~= field_trees(o.fields()));
}

proof fn lemma_field_names(fs: Seq<(String, ConvexValue)>)
    ensures
        field_names(field_trees(fs)) == names_of(fs),
{
    assert(field_names(field_trees(fs)) =~= names_of(fs));
}

/// What is wrong with a JSON value that stands for no value.
pub enum ValueFault {
    /// The text is no JSON.
    Syntax(Seq<char>),
    /// What a `$` wrapper holds is no text.
    NotText(Seq<char>),
    /// What a `$` wrapper holds is no base64.
    Base64(Seq<char>),
    /// A number that is not eight bytes long.
    WrongLength(nat),
    /// A floating point number in a wrapper, though JSON can hold it.
    FloatAsNumber(u64),
    /// The name of a field starts with `$`.
    ReservedField(Seq<char>),
    /// An array was expected.
    NotAnArray,
    /// An object was expected.
    NotAnObject,
}

/// Why a JSON value stands for no value.
#[derive(Debug)]
pub enum ValueError {
    Syntax(String),
    NotText(String),
    Base64(String),
    WrongLength(usize),
    FloatAsNumber(u64),
    ReservedField(String),
    NotAnArray,
    NotAnObject,
}

impl View for ValueError {
    type V = ValueFault;

    open spec fn view(&self) -> ValueFault {
        match *self {
            ValueError::Syntax(s) => ValueFault::Syntax(s@),
            ValueError::NotText(s) => ValueFault::NotText(s@),
            ValueError::Base64(s) => ValueFault::Base64(s@),
            ValueError::WrongLength(n) => ValueFault::WrongLength(n as nat),
            ValueError::FloatAsNumber(b) => ValueFault::FloatAsNumber(b),
            ValueError::ReservedField(s) => ValueFault::ReservedField(s@),
            ValueError::NotAnArray => ValueFault::NotAnArray,
            ValueError::NotAnObject => ValueFault::NotAnObject,
        }
    }
}

/// Whether JSON cannot hold the floating point number with these bits: negative zero, an infinity
/// or a NaN.
pub open spec fn is_special(bits: u64) -> bool {
    bits == NEGATIVE_ZERO_BITS || !is_finite(bits)
}

/// Whether a wrapper may not hold the floating point number with these bits: JSON can hold it.
pub open spec fn is_plain(bits: u64) -> bool {
    !is_special(bits)
}

/// The bits of the floating point number that a JSON number stands for.
pub open spec fn double_of(n: Number) -> u64 {
    match n {
        Number::Float(bits) => bits,
        _ => nearest_double(n),
    }
}

/// An object with one member.
pub open spec fn wrapped(name: Seq<char>, text: Seq<char>) -> JsonTree {
    JsonTree::Object(seq![(name, JsonTree::Text(text))])
}

/// The JSON that stands for a value.
pub open spec fn encoded(v: ValueTree) -> JsonTree
    decreases v,
{
    match v {
        ValueTree::Null => JsonTree::Null,
        ValueTree::Int64(n) => wrapped("$integer"@, base64_of(spec_u64_to_le_bytes(n as u64))),
        ValueTree::Float64(bits) => if is_special(bits) {
            wrapped("$float"@, base64_of(spec_u64_to_le_bytes(bits)))
        } else {
            JsonTree::Number(Number::Float(bits))
        },
        ValueTree::Boolean(b) => JsonTree::Bool(b),
        ValueTree::String(s) => JsonTree::Text(s),
        ValueTree::Bytes(b) => wrapped("$bytes"@, base64_of(b)),
        ValueTree::Array(vs) => JsonTree::Array(
            Seq::new(
                vs.len(),
                |i: int|
                    if 0 <= i < vs.len() {
                        encoded(vs[i])
                    } else {
                        JsonTree::Null
                    },
            ),
        ),
        ValueTree::Object(fs) => JsonTree::Object(
            Seq::new(
                fs.len(),
                |i: int|
                    if 0 <= i < fs.len() {
                        (fs[i].0, encoded(fs[i].1))
                    } else {
                        (Seq::<char>::empty(), JsonTree::Null)
                    },
            ),
        ),
    }
}

/// The JSON that stands for some values.
pub open spec fn all_encoded(vs: Seq<ValueTree>) -> Seq<JsonTree> {
    Seq::new(vs.len(), |i: int| encoded(vs[i]))
}

/// The members that stand for some fields.
pub open spec fn fields_encoded(fs: Fields) -> Members {
    Seq::new(fs.len(), |i: int| (fs[i].0, encoded(fs[i].1)))
}

/// How many of the first fields come before a name.
pub open spec fn place(fs: Fields, name: Seq<char>) -> nat
    decreases fs.len(),
{
    if fs.len() > 0 && text_less(fs[0].0, name) {
        1 + place(fs.skip(1), name)
    } else {
        0
    }
}

/// Fields in order with the given one set.
pub open spec fn field_set(fs: Fields, name: Seq<char>, v: ValueTree) -> Fields {
    let p = place(fs, name) as int;
    if p < fs.len() && fs[p].0 == name {
        fs.update(p, (name, v))
    } else {
        fs.insert(p, (name, v))
    }
}

/// The bytes that a wrapper's text stands for.
pub open spec fn wrapper_bytes(name: Seq<char>, t: JsonTree) -> Result<Seq<u8>, ValueFault> {
    match t {
        JsonTree::Text(s) => match bytes_of_base64(s) {
            Ok(b) => Ok(b),
            Err(e) => Err(ValueFault::Base64(e)),
        },
        _ => Err(ValueFault::NotText(name)),
    }
}

/// The eight bytes of a wrapper's text, as a number.
pub open spec fn wrapper_bits(name: Seq<char>, t: JsonTree) -> Result<u64, ValueFault> {
    match wrapper_bytes(name, t) {
        Err(f) => Err(f),
        Ok(b) => if b.len() == 8 {
            Ok(spec_u64_from_le_bytes(b))
        } else {
            Err(ValueFault::WrongLength(b.len()))
        },
    }
}

/// The value that a JSON value stands for.
pub open spec fn decoded(t: JsonTree) -> Result<ValueTree, ValueFault>
    decreases t, 0nat,
{
    match t {
        JsonTree::Null => Ok(ValueTree::Null),
        JsonTree::Bool(b) => Ok(ValueTree::Boolean(b)),
        JsonTree::Number(n) => Ok(ValueTree::Float64(double_of(n))),
        JsonTree::Text(s) => Ok(ValueTree::String(s)),
        JsonTree::Array(ts) => match all_decoded(ts, ts.len()) {
            Ok(vs) => Ok(ValueTree::Array(vs)),
            Err(f) => Err(f),
        },
        JsonTree::Object(es) => if es.len() == 1 && es[0].0 == "$bytes"@ {
            match wrapper_bytes("$bytes"@, es[0].1) {
                Ok(b) => Ok(ValueTree::Bytes(b)),
                Err(f) => Err(f),
            }
        } else if es.len() == 1 && es[0].0 == "$integer"@ {
            match wrapper_bits("$integer"@, es[0].1) {
                Ok(bits) => Ok(ValueTree::Int64(bits as i64)),
                Err(f) => Err(f),
            }
        } else if es.len() == 1 && es[0].0 == "$float"@ {
            match wrapper_bits("$float"@, es[0].1) {
                Ok(bits) => if is_plain(bits) {
                    Err(ValueFault::FloatAsNumber(bits))
                } else {
                    Ok(ValueTree::Float64(bits))
                },
                Err(f) => Err(f),
            }
        } else {
            match fields_decoded(es, es.len()) {
                Ok(fs) => Ok(ValueTree::Object(fs)),
                Err(f) => Err(f),
            }
        },
    }
}

/// The values that the first `k` JSON values stand for.
pub open spec fn all_decoded(ts: Seq<JsonTree>, k: nat) -> Result<Seq<ValueTree>, ValueFault>
    decreases ts, k,
{
    if k == 0 || k > ts.len() {
        Ok(Seq::empty())
    } else {
        match all_decoded(ts, (k - 1) as nat) {
            Err(f) => Err(f),
            Ok(before) => match decoded(ts[k - 1]) {
                Err(f) => Err(f),
                Ok(v) => Ok(before.push(v)),
            },
        }
    }
}

/// The fields that the first `k` members stand for.
pub open spec fn fields_decoded(es: Members, k: nat) -> Result<Fields, ValueFault>
    decreases es, k,
{
    if k == 0 || k > es.len() {
        Ok(Seq::empty())
    } else {
        match fields_decoded(es, (k - 1) as nat) {
            Err(f) => Err(f),
            Ok(before) => if reserved(es[k - 1].0) {
                Err(ValueFault::ReservedField(es[k - 1].0))
            } else {
                match decoded(es[k - 1].1) {
                    Err(f) => Err(f),
                    Ok(v) => Ok(field_set(before, es[k - 1].0, v)),
                }
            },
        }
    }
}

/// What decoding returned, as content.
pub open spec fn value_result(r: Result<ConvexValue, ValueError>) -> Result<
    ValueTree,
    ValueFault,
> {
    match r {
        Ok(v) => Ok(v.tree()),
        Err(e) => Err(e@),
    }
}

/// Integers as text.
pub struct JsonInteger;

/// Floating point numbers as text.
pub struct JsonFloat;

/// Bytes as text.
pub struct JsonBytes;

proof fn lemma_wrapper_bits(bits: u64, name: Seq<char>, text: Seq<char>)
    requires
        decodes_to(bytes_of_base64(text), spec_u64_to_le_bytes(bits)),
    ensures
        wrapper_bits(name, JsonTree::Text(text)) == Ok::<u64, ValueFault>(bits),
{
    lemma_auto_spec_u64_to_from_le_bytes();
}

fn encode_bits(bits: u64) -> (r: String)
    ensures
        r@ == base64_of(spec_u64_to_le_bytes(bits)),
        forall|name: Seq<char>|
            #[trigger] wrapper_bits(name, JsonTree::Text(r@)) == Ok::<u64, ValueFault>(bits),
{
    let b = u64_to_le_bytes(bits);
    let r = encode_base64(b.as_slice());
    proof {
        assert forall|name: Seq<char>| #[trigger]
            wrapper_bits(name, JsonTree::Text(r@)) == Ok::<u64, ValueFault>(bits) by {
            lemma_wrapper_bits(bits, name, r@);
        }
    }
    r
}

fn decode_bits(s: &str) -> (r: Result<u64, ValueError>)
    ensures
        match r {
            Ok(bits) => wrapper_bits(Seq::empty(), JsonTree::Text(s@)) == Ok::<u64, ValueFault>(
                bits,
            ),
            Err(e) => wrapper_bits(Seq::empty(), JsonTree::Text(s@)) == Err::<u64, ValueFault>(e@),
        },
{
    match decode_base64(s) {
        Err(e) => Err(ValueError::Base64(e)),
        Ok(b) => if b.len() == 8 {
            Ok(u64_from_le_bytes(b.as_slice()))
        } else {
            Err(ValueError::WrongLength(b.len()))
        },
    }
}

impl JsonInteger {
    /// The text of an integer. Decoding it gives the integer back.
    pub fn encode(n: i64) -> (r: String)
        ensures
            r@ == base64_of(spec_u64_to_le_bytes(n as u64)),
            decoded(wrapped("$integer"@, r@)) == Ok::<ValueTree, ValueFault>(ValueTree::Int64(n)),
    {
        let r = encode_bits(n as u64);
        proof {
            lemma_wrapper_names();
            assert(wrapper_bits("$integer"@, JsonTree::Text(r@)) == Ok::<u64, ValueFault>(
                n as u64,
            ));
            assert((n as u64) as i64 == n) by (bit_vector);
        }
        r
    }

    /// The integer that a text stands for.
    pub fn decode(s: &str) -> (r: Result<i64, ValueError>)
        ensures
            match (r, wrapper_bits(Seq::empty(), JsonTree::Text(s@))) {
                (Ok(n), Ok(bits)) => n == bits as i64,
                (Err(e), Err(f)) => e@ == f,
                _ => false,
            },
    {
        match decode_bits(s) {
            Ok(bits) => Ok(bits as i64),
            Err(e) => Err(e),
        }
    }
}

impl JsonFloat {
    /// The text of a floating point number, given by its bits. Decoding it gives the bits back.
    pub fn encode(bits: u64) -> (r: String)
        ensures
            r@ == base64_of(spec_u64_to_le_bytes(bits)),
            wrapper_bits("$float"@, JsonTree::Text(r@)) == Ok::<u64, ValueFault>(bits),
    {
        encode_bits(bits)
    }

    /// The bits of the floating point number that a text stands for.
    pub fn decode(s: &str) -> (r: Result<u64, ValueError>)
        ensures
            match (r, wrapper_bits(Seq::empty(), JsonTree::Text(s@))) {
                (Ok(n), Ok(bits)) => n == bits,
                (Err(e), Err(f)) => e@ == f,
                _ => false,
            },
    {
        decode_bits(s)
    }
}

impl JsonBytes {
    /// The text of some bytes. Decoding it gives the bytes back.
    pub fn encode(b: &[u8]) -> (r: String)
        ensures
            r@ == base64_of(b@),
            decodes_to(bytes_of_base64(r@), b@),
    {
        encode_base64(b)
    }

    /// The bytes that a text stands for.
    pub fn decode(s: &str) -> (r: Result<Vec<u8>, ValueError>)
        ensures
            match (r, bytes_of_base64(s@)) {
                (Ok(b), Ok(bytes)) => b@ == bytes,
                (Err(e), Err(text)) => e@ == ValueFault::Base64(text),
                _ => false,
            },
    {
        match decode_base64(s) {
            Ok(b) => Ok(b),
            Err(e) => Err(ValueError::Base64(e)),
        }
    }
}

proof fn lemma_wrapper_names()
    ensures
        "$bytes"@ != "$integer"@,
        "$bytes"@ != "$float"@,
        "$integer"@ != "$float"@,
        reserved("$bytes"@),
        reserved("$integer"@),
        reserved("$float"@),
{
    reveal_strlit("$bytes");
    reveal_strlit("$integer");
    reveal_strlit("$float");
    assert("$bytes"@[1] == 'b');
    assert("$integer"@[1] == 'i');
    assert("$float"@[1] == 'f');
}

fn finite(bits: u64) -> (r: bool)
    ensures
        r == is_finite(bits),
{
    (bits / 0x10_0000_0000_0000) % 0x800 != 0x7ff
}

/// Whether decoding JSON gave the value `v`.
pub open spec fn stands_for(t: JsonTree, v: ValueTree) -> bool {
    decoded(t) matches Ok(got) && got == v
}

fn wrap(name: &str, text: String) -> (r: Json)
    ensures
        r.tree() == wrapped(name@, text@),
        tree_wf(r.tree()),
{
    let ghost t = text@;
    let mut es: Vec<(String, Json)> = Vec::new();
    es.push((name.to_owned(), Json::Text(text)));
    proof {
        lemma_object_tree(es);
        assert(members(es@) =~= wrapped(name@, t)->Object_0);
        lemma_object_of_wf(members(es@));
    }
    Json::Object(es)
}

proof fn lemma_all_decoded(vs: Seq<ValueTree>, k: nat)
    requires
        k <= vs.len(),
        forall|i: int| 0 <= i < vs.len() ==> stands_for(encoded(#[trigger] vs[i]), vs[i]),
    ensures
        all_decoded(all_encoded(vs), k) == Ok::<Seq<ValueTree>, ValueFault>(vs.take(k as int)),
    decreases k,
{
    if k == 0 {
        assert(vs.take(0) =~= Seq::empty());
    } else {
        lemma_all_decoded(vs, (k - 1) as nat);
        assert(all_encoded(vs)[k - 1] == encoded(vs[k - 1]));
        assert(vs.take(k - 1).push(vs[k - 1]) =~= vs.take(k as int));
    }
}

proof fn lemma_place_at_end(fs: Fields, name: Seq<char>)
    requires
        forall|i: int| 0 <= i < fs.len() ==> text_less((#[trigger] fs[i]).0, name),
    ensures
        place(fs, name) == fs.len(),
    decreases fs.len(),
{
    if fs.len() > 0 {
        lemma_place_at_end(fs.skip(1), name);
    }
}

proof fn lemma_fields_decoded(fs: Fields, k: nat)
    requires
        k <= fs.len(),
        names_wf(field_names(fs)),
        forall|i: int| 0 <= i < fs.len() ==> stands_for(encoded((#[trigger] fs[i]).1), fs[i].1),
    ensures
        fields_decoded(fields_encoded(fs), k) == Ok::<Fields, ValueFault>(fs.take(k as int)),
    decreases k,
{
    if k == 0 {
        assert(fs.take(0) =~= Seq::empty());
    } else {
        lemma_fields_decoded(fs, (k - 1) as nat);
        let before = fs.take(k - 1);
        let name = fs[k - 1].0;
        let es = fields_encoded(fs);
        assert(es[k - 1] == (name, encoded(fs[k - 1].1)));
        let names = field_names(fs);
        assert(names[k - 1] == name);
        assert forall|i: int| 0 <= i < before.len() implies text_less(
            (#[trigger] before[i]).0,
            name,
        ) by {
            assert(names[i] == before[i].0);
            assert(text_less(names[i], names[k - 1]));
        }
        lemma_place_at_end(before, name);
        assert(before.insert(before.len() as int, fs[k - 1]) =~= fs.take(k as int));
    }
}

proof fn lemma_object_stands(fs: Fields)
    requires
        names_wf(field_names(fs)),
        forall|i: int| 0 <= i < fs.len() ==> stands_for(encoded((#[trigger] fs[i]).1), fs[i].1),
    ensures
        stands_for(JsonTree::Object(fields_encoded(fs)), ValueTree::Object(fs)),
{
    lemma_wrapper_names();
    let es = fields_encoded(fs);
    if es.len() == 1 {
        assert(field_names(fs)[0] == es[0].0);
        assert(!reserved(field_names(fs)[0]));
    }
    lemma_fields_decoded(fs, fs.len());
    assert(fs.take(fs.len() as int) =~= fs);
}

proof fn lemma_encoded_parts(v: ValueTree)
    ensures
        v matches ValueTree::Array(vs) ==> encoded(v) == JsonTree::Array(all_encoded(vs)),
        v matches ValueTree::Object(fs) ==> encoded(v) == JsonTree::Object(fields_encoded(fs)),
{
    match v {
        ValueTree::Array(vs) => {
            assert(encoded(v)->Array_0 =~= all_encoded(vs));
        },
        ValueTree::Object(fs) => {
            assert(encoded(v)->Object_0 =~= fields_encoded(fs));
        },
        _ => {},
    }
}

proof fn lemma_names_distinct(fs: Fields)
    requires
        names_wf(field_names(fs)),
    ensures
        distinct_keys(fields_encoded(fs)),
{
    let es = fields_encoded(fs);
    let names = field_names(fs);
    assert forall|i: int, j: int| 0 <= i < j < es.len() implies (#[trigger] es[i]).0 != (
    #[trigger] es[j]).0 by {
        assert(names[i] == es[i].0 && names[j] == es[j].0);
        assert(text_less(names[i], names[j]));
        lemma_text_less_irreflexive(names[i]);
    }
}

proof fn lemma_item_smaller(a: ConvexArray, i: int)
    requires
        0 <= i < a.items().len(),
    ensures
        decreases_to!(a => a.items()[i]),
{
    assert(decreases_to!(a => a.items));
    assert(decreases_to!(a.items => a.items@));
    assert(decreases_to!(a.items@ => a.items@[i]));
}

proof fn lemma_field_smaller(o: ConvexObject, i: int)
    requires
        0 <= i < o.fields().len(),
    ensures
        decreases_to!(o => o.fields()[i].1),
{
    assert(decreases_to!(o => o.fields));
    assert(decreases_to!(o.fields => o.fields@));
    assert(decreases_to!(o.fields@ => o.fields@[i]));
    assert(decreases_to!(o.fields@[i] => o.fields@[i].1));
}

impl ConvexValue {
    /// The JSON that stands for a value. Decoding it gives the value back.
    pub fn to_internal_json(&self) -> (r: Json)
        ensures
            r.tree() == encoded(self.tree()),
            tree_wf(r.tree()),
            value_wf(self.tree()),
            stands_for(r.tree(), self.tree()),
        decreases *self, 0nat,
    {
        proof {
            lemma_wrapper_names();
        }
        match self {
            ConvexValue::Null => Json::Null,
            ConvexValue::Int64(n) => wrap("$integer", JsonInteger::encode(*n)),
            ConvexValue::Float64(bits) => if *bits == NEGATIVE_ZERO_BITS || !finite(*bits) {
                wrap("$float", JsonFloat::encode(*bits))
            } else {
                Json::Number(Number::Float(*bits))
            },
            ConvexValue::Boolean(b) => Json::Bool(*b),
            ConvexValue::String(s) => Json::Text(s.clone()),
            ConvexValue::Bytes(b) => wrap("$bytes", JsonBytes::encode(b.as_slice())),
            ConvexValue::Array(a) => {
                proof {
                    lemma_array_value(*a);
                    assert(decreases_to!(*self => self->Array_0));
                }
                a.to_internal_json()
            },
            ConvexValue::Object(o) => {
                proof {
                    lemma_object_value(*o);
                    assert(decreases_to!(*self => self->Object_0));
                }
                o.to_internal_json()
            },
        }
    }
}

impl ConvexArray {
    /// The JSON that stands for an array. Decoding it gives the array back.
    pub fn to_internal_json(&self) -> (r: Json)
        ensures
            r.tree() == encoded(self.tree()),
            tree_wf(r.tree()),
            value_wf(self.tree()),
            stands_for(r.tree(), self.tree()),
        decreases *self, 0nat,
    {
        let ghost vs = value_trees(self.items());
        let mut out: Vec<Json> = Vec::new();
        let mut i: usize = 0;
        while i < self.items.len()
            invariant
                i <= self.items.len(),
                vs == value_trees(self.items()),
                trees(out@) == all_encoded(vs).take(i as int),
                forall|j: int|
                    0 <= j < i ==> stands_for(encoded(#[trigger] vs[j]), vs[j]) && value_wf(vs[j])
                        && tree_wf(encoded(vs[j])),
            decreases self.items.len() - i,
        {
            proof {
                lemma_item_smaller(*self, i as int);
            }
            let v = self.items[i].to_internal_json();
            let ghost before = trees(out@);
            out.push(v);
            assert(trees(out@) =~= before.push(v.tree()));
            assert(trees(out@) =~= all_encoded(vs).take(i + 1));
            i += 1;
        }
        proof {
            let t = self.tree();
            assert(trees(out@) =~= all_encoded(vs));
            assert(trees(out@).len() == out.len());
            lemma_array_tree(out);
            lemma_encoded_parts(t);
            lemma_all_decoded(vs, vs.len());
            assert(vs.take(vs.len() as int) =~= vs);
            let ts = all_encoded(vs);
            assert forall|j: int| 0 <= j < ts.len() implies tree_wf(#[trigger] ts[j]) by {
                assert(tree_wf(encoded(vs[j])));
            }
            lemma_array_of_wf(ts);
            assert forall|j: int| 0 <= j < t->Array_0.len() implies value_wf(
                #[trigger] t->Array_0[j],
            ) by {
                assert(value_wf(vs[j]));
            }
        }
        Json::Array(out)
    }
}

impl ConvexObject {
    /// The JSON that stands for an object. Decoding it gives the object back.
    pub fn to_internal_json(&self) -> (r: Json)
        ensures
            r.tree() == encoded(self.tree()),
            tree_wf(r.tree()),
            value_wf(self.tree()),
            stands_for(r.tree(), self.tree()),
        decreases *self, 0nat,
    {
        let ghost fs = field_trees(self.fields());
        let mut out: Vec<(String, Json)> = Vec::new();
        let mut i: usize = 0;
        while i < self.fields.len()
            invariant
                i <= self.fields.len(),
                fs == field_trees(self.fields()),
                members(out@) == fields_encoded(fs).take(i as int),
                forall|j: int|
                    0 <= j < i ==> stands_for(encoded((#[trigger] fs[j]).1), fs[j].1) && value_wf(
                        fs[j].1,
                    ) && tree_wf(encoded(fs[j].1)),
            decreases self.fields.len() - i,
        {
            proof {
                lemma_field_smaller(*self, i as int);
            }
            let v = self.fields[i].1.to_internal_json();
            let ghost before = members(out@);
            out.push((self.fields[i].0.clone(), v));
            assert(members(out@) =~= before.push(fields_encoded(fs)[i as int]));
            assert(members(out@) =~= fields_encoded(fs).take(i + 1));
            i += 1;
        }
        proof {
            use_type_invariant(self);
            let t = self.tree();
            lemma_field_names(self.fields());
            assert(members(out@) =~= fields_encoded(fs));
            lemma_object_tree(out);
            lemma_encoded_parts(t);
            lemma_object_stands(fs);
            lemma_names_distinct(fs);
            let es = fields_encoded(fs);
            assert forall|j: int| 0 <= j < es.len() implies tree_wf((#[trigger] es[j]).1) by {
                assert(tree_wf(encoded(fs[j].1)));
            }
            lemma_object_of_wf(es);
            assert forall|j: int| 0 <= j < t->Object_0.len() implies value_wf(
                (#[trigger] t->Object_0[j]).1,
            ) by {
                assert(value_wf(fs[j].1));
            }
        }
        Json::Object(out)
    }
}

fn decode_wrapper(name: &str, v: &Json) -> (r: Result<Vec<u8>, ValueError>)
    ensures
        match (r, wrapper_bytes(name@, v.tree())) {
            (Ok(b), Ok(bytes)) => b@ == bytes,
            (Err(e), Err(f)) => e@ == f,
            _ => false,
        },
{
    match v {
        Json::Text(s) => JsonBytes::decode(s.as_str()),
        _ => Err(ValueError::NotText(name.to_owned())),
    }
}

fn decode_wrapper_bits(name: &str, v: &Json) -> (r: Result<u64, ValueError>)
    ensures
        match (r, wrapper_bits(name@, v.tree())) {
            (Ok(b), Ok(bits)) => b == bits,
            (Err(e), Err(f)) => e@ == f,
            _ => false,
        },
{
    match decode_wrapper(name, v) {
        Err(e) => Err(e),
        Ok(b) => if b.len() == 8 {
            Ok(u64_from_le_bytes(b.as_slice()))
        } else {
            Err(ValueError::WrongLength(b.len()))
        },
    }
}

proof fn lemma_place(fs: Fields, name: Seq<char>)
    ensures
        place(fs, name) <= fs.len(),
        forall|i: int| 0 <= i < place(fs, name) ==> text_less((#[trigger] fs[i]).0, name),
        place(fs, name) < fs.len() ==> !text_less(fs[place(fs, name) as int].0, name),
    decreases fs.len(),
{
    if fs.len() > 0 && text_less(fs[0].0, name) {
        lemma_place(fs.skip(1), name);
        assert forall|i: int| 0 <= i < place(fs, name) implies text_less(
            (#[trigger] fs[i]).0,
            name,
        ) by {
            if i > 0 {
                assert(fs.skip(1)[i - 1] == fs[i]);
            }
        }
    }
}

proof fn lemma_field_set_names(fs: Fields, name: Seq<char>, v: ValueTree)
    requires
        names_wf(field_names(fs)),
        !reserved(name),
    ensures
        names_wf(field_names(field_set(fs, name, v))),
{
    lemma_place(fs, name);
    let p = place(fs, name) as int;
    let out = field_set(fs, name, v);
    let before = field_names(fs);
    let after = field_names(out);
    if p < fs.len() && fs[p].0 == name {
        assert(after =~= before);
    } else {
        assert(after =~= before.insert(p, name));
        assert forall|i: int, j: int| 0 <= i < j < after.len() implies text_less(
            after[i],
            after[j],
        ) by {
            if j < p {
                assert(text_less(before[i], before[j]));
            } else if j == p {
                assert(before[i] == fs[i].0);
                assert(text_less(fs[i].0, name));
            } else {
                // The field at `p` comes after the name, and so does each that follows it.
                assert(before[p] == fs[p].0);
                lemma_text_less_total(before[p], name);
                if p < j - 1 {
                    assert(text_less(before[p], before[j - 1]));
                    lemma_text_less_transitive(name, before[p], before[j - 1]);
                }
                if i < p {
                    assert(before[i] == fs[i].0);
                    assert(text_less(fs[i].0, name));
                    lemma_text_less_transitive(before[i], name, before[j - 1]);
                } else if i > p {
                    assert(text_less(before[i - 1], before[j - 1]));
                }
            }
        }
        assert forall|i: int| 0 <= i < after.len() implies !reserved(#[trigger] after[i]) by {
            if i < p {
                assert(!reserved(before[i]));
            } else if i > p {
                assert(!reserved(before[i - 1]));
            }
        }
    }
}

fn set_field(fs: &mut Vec<(String, ConvexValue)>, name: &str, v: ConvexValue)
    ensures
        field_trees(final(fs)@) == field_set(field_trees(old(fs)@), name@, v.tree()),
{
    let ghost all = field_trees(fs@);
    let ghost value = v.tree();
    let mut p: usize = 0;
    assert(all.skip(0) =~= all);
    while p < fs.len() && less_text(fs[p].0.as_str(), name)
        invariant
            p <= fs.len(),
            all == field_trees(fs@),
            place(all, name@) == p + place(all.skip(p as int), name@),
        decreases fs.len() - p,
    {
        assert(all.skip(p as int).skip(1) =~= all.skip(p + 1));
        assert(all.skip(p as int)[0] == all[p as int]);
        p += 1;
    }
    assert(place(all.skip(p as int), name@) == 0) by {
        if p < all.len() {
            assert(all.skip(p as int)[0] == all[p as int]);
        }
    }
    if p < fs.len() && same_text(fs[p].0.as_str(), name) {
        fs.set(p, (name.to_owned(), v));
        assert(field_trees(fs@) =~= all.update(p as int, (name@, value)));
    } else {
        fs.insert(p, (name.to_owned(), v));
        assert(field_trees(fs@) =~= all.insert(p as int, (name@, value)));
    }
}

/// Whether a field may not have this name.
pub(crate) fn is_reserved(name: &str) -> (r: bool)
    ensures
        r == reserved(name@),
{
    proof {
        reveal_strlit("$");
    }
    let r = crate::text::starts_with(name, "$");
    proof {
        assert("$"@ =~= seq!['$']);
        if name@.len() > 0 {
            assert(name@.take(1) =~= seq![name@[0]]);
            assert(name@.take(1)[0] == name@[0]);
        }
    }
    r
}

fn decode_members(es: &Vec<(String, Json)>, Ghost(whole): Ghost<Json>) -> (r: Result<
    ConvexObject,
    ValueError,
>)
    requires
        whole == Json::Object(*es),
        tree_wf(JsonTree::Object(members(es@))),
    ensures
        match (r, fields_decoded(members(es@), members(es@).len())) {
            (Ok(o), Ok(fs)) => o.tree() == ValueTree::Object(fs),
            (Err(e), Err(f)) => e@ == f,
            _ => false,
        },
        r matches Ok(o) ==> value_wf(o.tree()),
    decreases whole, 0nat,
{
    let ghost all = members(es@);
    let mut out: Vec<(String, ConvexValue)> = Vec::new();
    let mut i: usize = 0;
    assert(field_trees(out@) =~= Seq::empty());
    assert(field_names(field_trees(out@)) =~= Seq::empty());
    while i < es.len()
        invariant
            i <= es.len(),
            whole == Json::Object(*es),
            all == members(es@),
            tree_wf(JsonTree::Object(all)),
            fields_decoded(all, i as nat) == Ok::<Fields, ValueFault>(field_trees(out@)),
            names_wf(field_names(field_trees(out@))),
            forall|j: int|
                0 <= j < field_trees(out@).len() ==> value_wf((#[trigger] field_trees(out@)[j]).1),
        decreases es.len() - i,
    {
        let name = es[i].0.as_str();
        let ghost before = field_trees(out@);
        proof {
            lemma_member_smaller(*es, i as int);
            lemma_object_wf(all, i as int);
        }
        if is_reserved(name) {
            proof {
                lemma_fault_stays(all, (i + 1) as nat);
            }
            return Err(ValueError::ReservedField(name.to_owned()));
        }
        match decode_value(&es[i].1) {
            Err(e) => {
                proof {
                    lemma_fault_stays(all, (i + 1) as nat);
                }
                return Err(e);
            },
            Ok(v) => {
                let ghost value = v.tree();
                set_field(&mut out, name, v);
                proof {
                    lemma_field_set_names(before, name@, value);
                    lemma_place(before, name@);
                    let after = field_trees(out@);
                    let p = place(before, name@) as int;
                    assert forall|j: int| 0 <= j < after.len() implies value_wf(
                        (#[trigger] after[j]).1,
                    ) by {
                        if p < before.len() && before[p].0 == name@ {
                            if j != p {
                                assert(value_wf(before[j].1));
                            }
                        } else if j < p {
                            assert(value_wf(before[j].1));
                        } else if j > p {
                            assert(value_wf(before[j - 1].1));
                        }
                    }
                }
            },
        }
        i += 1;
    }
    proof {
        lemma_field_names(out@);
    }
    let o = ConvexObject { fields: out };
    proof {
        let t = o.tree();
        assert forall|j: int| 0 <= j < t->Object_0.len() implies value_wf(
            (#[trigger] t->Object_0[j]).1,
        ) by {
            assert(value_wf(field_trees(out@)[j].1));
        }
    }
    Ok(o)
}

proof fn lemma_fault_stays(es: Members, k: nat)
    requires
        k <= es.len(),
        fields_decoded(es, k) is Err,
    ensures
        fields_decoded(es, es.len()) == fields_decoded(es, k),
    decreases es.len() - k,
{
    if k < es.len() {
        lemma_fault_stays(es, k + 1);
    }
}

proof fn lemma_item_fault_stays(ts: Seq<JsonTree>, k: nat)
    requires
        k <= ts.len(),
        all_decoded(ts, k) is Err,
    ensures
        all_decoded(ts, ts.len()) == all_decoded(ts, k),
    decreases ts.len() - k,
{
    if k < ts.len() {
        lemma_item_fault_stays(ts, k + 1);
    }
}

fn decode_items(vs: &Vec<Json>, Ghost(whole): Ghost<Json>) -> (r: Result<ConvexArray, ValueError>)
    requires
        whole == Json::Array(*vs),
        tree_wf(JsonTree::Array(trees(vs@))),
    ensures
        match (r, all_decoded(trees(vs@), trees(vs@).len())) {
            (Ok(a), Ok(items)) => a.tree() == ValueTree::Array(items),
            (Err(e), Err(f)) => e@ == f,
            _ => false,
        },
        r matches Ok(a) ==> value_wf(a.tree()),
    decreases whole, 0nat,
{
    let ghost all = trees(vs@);
    let mut out: Vec<ConvexValue> = Vec::new();
    let mut i: usize = 0;
    assert(value_trees(out@) =~= Seq::empty());
    while i < vs.len()
        invariant
            i <= vs.len(),
            whole == Json::Array(*vs),
            all == trees(vs@),
            tree_wf(JsonTree::Array(all)),
            all_decoded(all, i as nat) == Ok::<Seq<ValueTree>, ValueFault>(value_trees(out@)),
            forall|j: int|
                0 <= j < value_trees(out@).len() ==> value_wf(#[trigger] value_trees(out@)[j]),
        decreases vs.len() - i,
    {
        let ghost before = value_trees(out@);
        proof {
            lemma_element_smaller(*vs, i as int);
            lemma_array_wf(all, i as int);
        }
        match decode_value(&vs[i]) {
            Err(e) => {
                proof {
                    lemma_item_fault_stays(all, (i + 1) as nat);
                }
                return Err(e);
            },
            Ok(v) => {
                let ghost value = v.tree();
                out.push(v);
                proof {
                    let after = value_trees(out@);
                    assert(after =~= before.push(value));
                    assert forall|j: int| 0 <= j < after.len() implies value_wf(
                        #[trigger] after[j],
                    ) by {
                        if j < before.len() {
                            assert(value_wf(before[j]));
                        }
                    }
                }
            },
        }
        i += 1;
    }
    let a = ConvexArray { items: out };
    proof {
        let t = a.tree();
        assert forall|j: int| 0 <= j < t->Array_0.len() implies value_wf(
            #[trigger] t->Array_0[j],
        ) by {
            assert(value_wf(value_trees(out@)[j]));
        }
    }
    Ok(a)
}

/// The value that a JSON value stands for.
pub(crate) fn decode_value(v: &Json) -> (r: Result<ConvexValue, ValueError>)
    requires
        tree_wf(v.tree()),
    ensures
        value_result(r) == decoded(v.tree()),
        r matches Ok(x) ==> value_wf(x.tree()),
    decreases *v, 1nat,
{
    match v {
        Json::Null => Ok(ConvexValue::Null),
        Json::Bool(b) => Ok(ConvexValue::Boolean(*b)),
        Json::Number(n) => Ok(ConvexValue::Float64(number_as_double(*n))),
        Json::Text(s) => Ok(ConvexValue::String(s.clone())),
        Json::Array(vs) => {
            proof {
                lemma_array_tree(*vs);
            }
            match decode_items(vs, Ghost(*v)) {
                Ok(a) => {
                    proof {
                        lemma_array_value(a);
                    }
                    Ok(ConvexValue::Array(a))
                },
                Err(e) => Err(e),
            }
        },
        Json::Object(es) => {
            proof {
                lemma_object_tree(*es);
            }
            if es.len() == 1 {
                let name = es[0].0.as_str();
                assert(members(es@)[0].0 == name@);
                if same_text(name, "$bytes") {
                    return match decode_wrapper("$bytes", &es[0].1) {
                        Ok(b) => Ok(ConvexValue::Bytes(b)),
                        Err(e) => Err(e),
                    };
                }
                if same_text(name, "$integer") {
                    return match decode_wrapper_bits("$integer", &es[0].1) {
                        Ok(bits) => Ok(ConvexValue::Int64(bits as i64)),
                        Err(e) => Err(e),
                    };
                }
                if same_text(name, "$float") {
                    return match decode_wrapper_bits("$float", &es[0].1) {
                        Ok(bits) => if finite(bits) && bits != NEGATIVE_ZERO_BITS {
                            Err(ValueError::FloatAsNumber(bits))
                        } else {
                            Ok(ConvexValue::Float64(bits))
                        },
                        Err(e) => Err(e),
                    };
                }
            }
            match decode_members(es, Ghost(*v)) {
                Ok(o) => {
                    proof {
                        lemma_object_value(o);
                    }
                    Ok(ConvexValue::Object(o))
                },
                Err(e) => Err(e),
            }
        },
    }
}

/// The value that a text stands for.
pub open spec fn value_of_text(s: Seq<char>) -> Result<ValueTree, ValueFault> {
    match json_of_text(s) {
        Err(e) => Err(ValueFault::Syntax(e)),
        Ok(t) => decoded(t),
    }
}

/// The value that some bytes stand for.
pub open spec fn value_of_bytes(s: Seq<u8>) -> Result<ValueTree, ValueFault> {
    match json_of_bytes(s) {
        Err(e) => Err(ValueFault::Syntax(e)),
        Ok(t) => decoded(t),
    }
}

/// Whether a text is that of a value, reads as the JSON of the value, and both the text and its
/// bytes stand for the value again, as long as the JSON nests no deeper than the reader goes.
pub open spec fn is_text_of(s: Seq<char>, v: ValueTree) -> bool {
    &&& s == text_of_json(encoded(v))
    &&& tree_depth(encoded(v)) <= MAX_DEPTH ==> holds(json_of_text(s), encoded(v))
    &&& tree_depth(encoded(v)) <= MAX_DEPTH ==> value_of_text(s) == Ok::<ValueTree, ValueFault>(v)
    &&& tree_depth(encoded(v)) <= MAX_DEPTH ==> value_of_bytes(encode_utf8(s)) == Ok::<
        ValueTree,
        ValueFault,
    >(v)
}

impl ConvexValue {
    /// The value that a JSON value stands for.
    pub fn try_from(value: Json) -> (r: Result<ConvexValue, ValueError>)
        requires
            tree_wf(value.tree()),
        ensures
            value_result(r) == decoded(value.tree()),
            r matches Ok(v) ==> value_wf(v.tree()),
    {
        decode_value(&value)
    }

    /// The text of a value. Reading it gives the value back.
    pub fn json_serialize(&self) -> (r: Result<String, ValueError>)
        ensures
            r matches Ok(s) && is_text_of(s@, self.tree()),
    {
        Ok(print_json(&self.to_internal_json()))
    }
}

impl ConvexArray {
    /// An array of the given items.
    pub fn new(items: Vec<ConvexValue>) -> (r: ConvexArray)
        ensures
            r.items() == items@,
    {
        ConvexArray { items }
    }

    /// The items of an array.
    pub fn as_items(&self) -> (r: &Vec<ConvexValue>)
        ensures
            r@ == self.items(),
    {
        &self.items
    }

    /// The array that a value is.
    pub fn from_value(value: ConvexValue) -> (r: Result<ConvexArray, ValueError>)
        ensures
            match r {
                Ok(a) => value == ConvexValue::Array(a),
                Err(e) => !(value is Array) && e@ == ValueFault::NotAnArray,
            },
    {
        match value {
            ConvexValue::Array(a) => Ok(a),
            _ => Err(ValueError::NotAnArray),
        }
    }

    /// The array that a JSON value stands for.
    pub fn try_from(value: Json) -> (r: Result<ConvexArray, ValueError>)
        requires
            tree_wf(value.tree()),
        ensures
            match (r, decoded(value.tree())) {
                (Ok(a), Ok(v)) => a.tree() == v,
                (Err(e), Ok(v)) => !(v is Array) && e@ == ValueFault::NotAnArray,
                (Err(e), Err(f)) => e@ == f,
                _ => false,
            },
    {
        match decode_value(&value) {
            Err(e) => Err(e),
            Ok(v) => {
                let r = ConvexArray::from_value(v);
                proof {
                    if r is Ok {
                        lemma_array_value(r->Ok_0);
                    }
                }
                r
            },
        }
    }

    /// The text of an array. Reading it gives the array back.
    pub fn json_serialize(&self) -> (r: Result<String, ValueError>)
        ensures
            r matches Ok(s) && is_text_of(s@, self.tree()),
    {
        Ok(print_json(&self.to_internal_json()))
    }
}

impl ConvexObject {
    /// An object without fields.
    pub fn empty() -> (r: ConvexObject)
        ensures
            r.fields() == Seq::<(String, ConvexValue)>::empty(),
    {
        let fields: Vec<(String, ConvexValue)> = Vec::new();
        assert(names_of(fields@) =~= Seq::empty());
        ConvexObject { fields }
    }

    /// An object with one field, unless its name is reserved.
    pub fn for_value(name: String, value: ConvexValue) -> (r: Result<ConvexObject, ValueError>)
        ensures
            match r {
                Ok(o) => !reserved(name@) && o.tree() == ValueTree::Object(
                    seq![(name@, value.tree())],
                ),
                Err(e) => reserved(name@) && e@ == ValueFault::ReservedField(name@),
            },
    {
        let mut o = ConvexObject::empty();
        match o.set(name, value) {
            Err(e) => Err(e),
            Ok(()) => {
                assert(o.tree()->Object_0 =~= seq![(name@, value.tree())]);
                Ok(o)
            },
        }
    }

    /// Set a field, unless its name is reserved.
    pub fn set(&mut self, name: String, value: ConvexValue) -> (r: Result<(), ValueError>)
        ensures
            match r {
                Ok(()) => !reserved(name@) && final(self).tree() == ValueTree::Object(
                    field_set(old(self).tree()->Object_0, name@, value.tree()),
                ),
                Err(e) => reserved(name@) && e@ == ValueFault::ReservedField(name@)
                    && final(self).tree() == old(self).tree(),
            },
    {
        if is_reserved(name.as_str()) {
            return Err(ValueError::ReservedField(name));
        }
        proof {
            use_type_invariant(&*self);
        }
        let ghost before = field_trees(self.fields@);
        let mut fields: Vec<(String, ConvexValue)> = Vec::new();
        assert(names_of(fields@) =~= Seq::empty());
        std::mem::swap(&mut fields, &mut self.fields);
        proof {
            lemma_field_names(fields@);
            lemma_field_set_names(before, name@, value.tree());
        }
        set_field(&mut fields, name.as_str(), value);
        proof {
            lemma_field_names(fields@);
        }
        self.fields = fields;
        Ok(())
    }

    /// The fields of an object, in the order of their names.
    pub fn as_fields(&self) -> (r: &Vec<(String, ConvexValue)>)
        ensures
            r@ == self.fields(),
            names_wf(names_of(r@)),
    {
        proof {
            use_type_invariant(self);
        }
        &self.fields
    }

    /// The object that a value is.
    pub fn from_value(value: ConvexValue) -> (r: Result<ConvexObject, ValueError>)
        ensures
            match r {
                Ok(o) => value == ConvexValue::Object(o),
                Err(e) => !(value is Object) && e@ == ValueFault::NotAnObject,
            },
    {
        match value {
            ConvexValue::Object(o) => Ok(o),
            _ => Err(ValueError::NotAnObject),
        }
    }

    /// The object that a JSON value stands for.
    pub fn try_from(value: Json) -> (r: Result<ConvexObject, ValueError>)
        requires
            tree_wf(value.tree()),
        ensures
            match (r, decoded(value.tree())) {
                (Ok(o), Ok(v)) => o.tree() == v,
                (Err(e), Ok(v)) => !(v is Object) && e@ == ValueFault::NotAnObject,
                (Err(e), Err(f)) => e@ == f,
                _ => false,
            },
    {
        match decode_value(&value) {
            Err(e) => Err(e),
            Ok(v) => {
                let r = ConvexObject::from_value(v);
                proof {
                    if r is Ok {
                        lemma_object_value(r->Ok_0);
                    }
                }
                r
            },
        }
    }

    /// The text of an object. Reading it gives the object back.
    pub fn json_serialize(&self) -> (r: Result<String, ValueError>)
        ensures
            r matches Ok(s) && is_text_of(s@, self.tree()),
    {
        Ok(print_json(&self.to_internal_json()))
    }
}

/// The value that a text stands for.
pub fn json_deserialize(s: &str) -> (r: Result<ConvexValue, ValueError>)
    ensures
        value_result(r) == value_of_text(s@),
        r matches Ok(v) ==> value_wf(v.tree()),
{
    match parse_json(s) {
        Err(e) => Err(ValueError::Syntax(e)),
        Ok(j) => decode_value(&j),
    }
}

/// The value that some bytes stand for.
pub fn json_deserialize_bytes(s: &[u8]) -> (r: Result<ConvexValue, ValueError>)
    ensures
        value_result(r) == value_of_bytes(s@),
        r matches Ok(v) ==> value_wf(v.tree()),
{
    match parse_json_bytes(s) {
        Err(e) => Err(ValueError::Syntax(e)),
        Ok(j) => decode_value(&j),
    }
}

/// The text that a value is, for a wrapper that needs one.
pub fn string_from_value(value: ConvexValue, wrapper: &str) -> (r: Result<String, ValueError>)
    ensures
        match r {
            Ok(s) => value == ConvexValue::String(s),
            Err(e) => !(value is String) && e@ == ValueFault::NotText(wrapper@),
        },
{
    match value {
        ConvexValue::String(s) => Ok(s),
        _ => Err(ValueError::NotText(wrapper.to_owned())),
    }
}

/// How many items will come, where the lower and the upper bound agree.
pub fn size_hint(lo: usize, hi: Option<usize>) -> (r: Option<usize>)
    ensures
        r == (if hi == Some(lo) {
            Some(lo)
        } else {
            None
        }),
{
    match hi {
        Some(h) => if h == lo {
            hi
        } else {
            None
        },
        None => None,
    }
}

/// The text of the floating point number with the given bits, as its `Display` writes it.
pub uninterp spec fn double_text(bits: u64) -> Seq<char>;

/// The `Display` of a double, given by its bits, which `bytes::Buf::get_f64_le` reads.
#[verifier::external_body]
fn display_double(bits: u64) -> (r: String)
    ensures
        r@ == double_text(bits),
{
    bytes::Buf::get_f64_le(&mut &bits.to_le_bytes()[..]).to_string()
}

/// What is said of a fault.
pub open spec fn fault_message(f: ValueFault) -> Seq<char> {
    match f {
        ValueFault::Syntax(s) => s,
        ValueFault::NotText(s) => "expected a string for "@ + s + " value"@,
        ValueFault::Base64(s) => s,
        ValueFault::WrongLength(n) => "expected 8 bytes, got "@ + decimal(n),
        ValueFault::FloatAsNumber(bits) => "Float64 "@ + double_text(bits)
            + " should be encoded as a number"@,
        ValueFault::ReservedField(s) => "Field name "@ + s + " starts with '$', which is reserved"@,
        ValueFault::NotAnArray => "expected an array"@,
        ValueFault::NotAnObject => "expected an object"@,
    }
}

impl ValueError {
    /// What is said of an error.
    pub fn message(&self) -> (r: String)
        ensures
            r@ == fault_message(self@),
    {
        match self {
            ValueError::Syntax(s) => s.clone(),
            ValueError::NotText(s) => concat(
                concat("expected a string for ", s.as_str()).as_str(),
                " value",
            ),
            ValueError::Base64(s) => s.clone(),
            ValueError::WrongLength(n) => concat(
                "expected 8 bytes, got ",
                decimal_text(*n as u64).as_str(),
            ),
            ValueError::FloatAsNumber(bits) => concat(
                concat("Float64 ", display_double(*bits).as_str()).as_str(),
                " should be encoded as a number",
            ),
            ValueError::ReservedField(s) => concat(
                concat("Field name ", s.as_str()).as_str(),
                " starts with '$', which is reserved",
            ),
            ValueError::NotAnArray => "expected an array".to_owned(),
            ValueError::NotAnObject => "expected an object".to_owned(),
        }
    }
}

proof fn lemma_all_decoded_each(ts: Seq<JsonTree>, k: nat)
    requires
        k <= ts.len(),
    ensures
        all_decoded(ts, k) is Ok <==> forall|i: int|
            0 <= i < k ==> decoded(#[trigger] ts[i]) is Ok,
        all_decoded(ts, k) matches Ok(vs) ==> vs.len() == k && forall|i: int|
            0 <= i < k ==> decoded(ts[i]) == Ok::<ValueTree, ValueFault>(#[trigger] vs[i]),
    decreases k,
{
    if k > 0 {
        lemma_all_decoded_each(ts, (k - 1) as nat);
        if all_decoded(ts, k) is Ok {
            assert(all_decoded(ts, (k - 1) as nat) is Ok);
        }
    }
}

/// An array stands for a value exactly where each of its elements does, and then for the array of
/// what they stand for.
pub proof fn arrays_decode_by_element(ts: Seq<JsonTree>, i: int)
    ensures
        decoded(JsonTree::Array(ts)) is Ok <==> forall|j: int|
            0 <= j < ts.len() ==> decoded(#[trigger] ts[j]) is Ok,
        decoded(JsonTree::Array(ts)) matches Ok(v) ==> (v matches ValueTree::Array(vs) && vs.len()
            == ts.len() && (0 <= i < ts.len() ==> decoded(ts[i]) == Ok::<ValueTree, ValueFault>(
            vs[i],
        ))),
{
    lemma_all_decoded_each(ts, ts.len());
}

/// What stands for itself: null, booleans and texts, and numbers for the floating point number
/// nearest to them.
pub proof fn plain_json_stands_for_itself(b: bool, s: Seq<char>, n: Number)
    ensures
        decoded(JsonTree::Null) == Ok::<ValueTree, ValueFault>(ValueTree::Null),
        decoded(JsonTree::Bool(b)) == Ok::<ValueTree, ValueFault>(ValueTree::Boolean(b)),
        decoded(JsonTree::Text(s)) == Ok::<ValueTree, ValueFault>(ValueTree::String(s)),
        decoded(JsonTree::Number(n)) == Ok::<ValueTree, ValueFault>(
            ValueTree::Float64(
                match n {
                    Number::Float(bits) => bits,
                    _ => nearest_double(n),
                },
            ),
        ),
{
}

/// An object with a single member under `$bytes`, `$integer` or `$float` stands for what its base64
/// holds: the bytes, or eight of them with the lowest first. It is refused where it holds no text,
/// no base64 or no eight bytes, and a floating point number is refused where JSON can hold it.
pub proof fn wrappers_hold_base64(t: JsonTree)
    ensures
        !(t is Text) ==> decoded(JsonTree::Object(seq![("$bytes"@, t)])) == Err::<
            ValueTree,
            ValueFault,
        >(ValueFault::NotText("$bytes"@)),
        !(t is Text) ==> decoded(JsonTree::Object(seq![("$integer"@, t)])) == Err::<
            ValueTree,
            ValueFault,
        >(ValueFault::NotText("$integer"@)),
        !(t is Text) ==> decoded(JsonTree::Object(seq![("$float"@, t)])) == Err::<
            ValueTree,
            ValueFault,
        >(ValueFault::NotText("$float"@)),
        t matches JsonTree::Text(s) ==> (bytes_of_base64(s) matches Err(e) ==> {
            &&& decoded(JsonTree::Object(seq![("$bytes"@, t)])) == Err::<ValueTree, ValueFault>(
                ValueFault::Base64(e),
            )
            &&& decoded(JsonTree::Object(seq![("$integer"@, t)])) == Err::<ValueTree, ValueFault>(
                ValueFault::Base64(e),
            )
            &&& decoded(JsonTree::Object(seq![("$float"@, t)])) == Err::<ValueTree, ValueFault>(
                ValueFault::Base64(e),
            )
        }),
        t matches JsonTree::Text(s) ==> (bytes_of_base64(s) matches Ok(b) ==> {
            let bits = spec_u64_from_le_bytes(b);
            &&& decoded(JsonTree::Object(seq![("$bytes"@, t)])) == Ok::<ValueTree, ValueFault>(
                ValueTree::Bytes(b),
            )
            &&& b.len() == 8 ==> decoded(JsonTree::Object(seq![("$integer"@, t)])) == Ok::<
                ValueTree,
                ValueFault,
            >(ValueTree::Int64(bits as i64))
            &&& b.len() == 8 && (bits == 0x8000_0000_0000_0000 || !is_finite(bits)) ==> decoded(
                JsonTree::Object(seq![("$float"@, t)]),
            ) == Ok::<ValueTree, ValueFault>(ValueTree::Float64(bits))
            &&& b.len() == 8 && bits != 0x8000_0000_0000_0000 && is_finite(bits) ==> decoded(
                JsonTree::Object(seq![("$float"@, t)]),
            ) == Err::<ValueTree, ValueFault>(ValueFault::FloatAsNumber(bits))
            &&& b.len() != 8 ==> decoded(JsonTree::Object(seq![("$integer"@, t)])) == Err::<
                ValueTree,
                ValueFault,
            >(ValueFault::WrongLength(b.len()))
            &&& b.len() != 8 ==> decoded(JsonTree::Object(seq![("$float"@, t)])) == Err::<
                ValueTree,
                ValueFault,
            >(ValueFault::WrongLength(b.len()))
        }),
{
    lemma_wrapper_names();
    let bytes = seq![("$bytes"@, t)];
    let integer = seq![("$integer"@, t)];
    let float = seq![("$float"@, t)];
    assert(bytes[0] == ("$bytes"@, t));
    assert(integer[0] == ("$integer"@, t));
    assert(float[0] == ("$float"@, t));
}

proof fn lemma_set_field(fs: Fields, name: Seq<char>, v: ValueTree)
    requires
        names_wf(field_names(fs)),
    ensures
        field_set(fs, name, v).contains((name, v)),
        forall|f: (Seq<char>, ValueTree)|
            f.0 != name ==> (#[trigger] field_set(fs, name, v).contains(f) <==> fs.contains(f)),
        forall|f: (Seq<char>, ValueTree)|
            f.0 == name ==> (#[trigger] field_set(fs, name, v).contains(f) <==> f.1 == v),
{
    let out = field_set(fs, name, v);
    let p = place(fs, name) as int;
    lemma_place(fs, name);
    let names = field_names(fs);
    if p < fs.len() && fs[p].0 == name {
        assert(out[p] == (name, v));
        assert forall|f: (Seq<char>, ValueTree)| f.0 != name implies (#[trigger] out.contains(f)
            <==> fs.contains(f)) by {
            if fs.contains(f) {
                let i = choose|i: int| 0 <= i < fs.len() && fs[i] == f;
                assert(out[i] == f);
            }
            if out.contains(f) {
                let i = choose|i: int| 0 <= i < out.len() && out[i] == f;
                assert(fs[i] == f);
            }
        }
        assert forall|f: (Seq<char>, ValueTree)| f.0 == name implies (#[trigger] out.contains(f)
            <==> f.1 == v) by {
            if out.contains(f) {
                let i = choose|i: int| 0 <= i < out.len() && out[i] == f;
                if i != p {
                    assert(names[i] == name && names[p] == name);
                    if i < p {
                        assert(text_less(names[i], names[p]));
                    } else {
                        assert(text_less(names[p], names[i]));
                    }
                    lemma_text_less_irreflexive(name);
                }
            }
        }
    } else {
        assert(out[p] == (name, v));
        assert forall|f: (Seq<char>, ValueTree)| f.0 != name implies (#[trigger] out.contains(f)
            <==> fs.contains(f)) by {
            if fs.contains(f) {
                let i = choose|i: int| 0 <= i < fs.len() && fs[i] == f;
                if i < p {
                    assert(out[i] == f);
                } else {
                    assert(out[i + 1] == f);
                }
            }
            if out.contains(f) {
                let i = choose|i: int| 0 <= i < out.len() && out[i] == f;
                if i < p {
                    assert(fs[i] == f);
                } else {
                    assert(fs[i - 1] == f);
                }
            }
        }
        assert forall|f: (Seq<char>, ValueTree)| f.0 == name implies (#[trigger] out.contains(f)
            <==> f.1 == v) by {
            if out.contains(f) {
                let i = choose|i: int| 0 <= i < out.len() && out[i] == f;
                if i < p {
                    assert(text_less(fs[i].0, name));
                    lemma_text_less_irreflexive(name);
                } else if i > p {
                    assert(fs[i - 1] == f);
                    assert(names[i - 1] == name);
                    if i - 1 > p {
                        assert(text_less(names[p], names[i - 1]));
                    }
                }
            }
        }
    }
}

/// Setting a field of an object gives it that value, under a name that stands once, and leaves
/// every other field as it was.
pub proof fn fields_hold_what_is_set(
    fs: Fields,
    name: Seq<char>,
    v: ValueTree,
    other: Seq<char>,
    w: ValueTree,
)
    requires
        names_wf(field_names(fs)),
        !reserved(name),
    ensures
        field_set(fs, name, v).contains((name, w)) <==> w == v,
        other != name ==> (field_set(fs, name, v).contains((other, w)) <==> fs.contains((other, w))),
        names_wf(field_names(field_set(fs, name, v))),
{
    lemma_set_field(fs, name, v);
    lemma_field_set_names(fs, name, v);
    assert((name, w).0 == name);
    assert((other, w).0 == other);
}

proof fn lemma_fields_decoded_each(es: Members, k: nat)
    requires
        distinct_keys(es),
        k <= es.len(),
    ensures
        fields_decoded(es, k) is Ok <==> forall|i: int|
            0 <= i < k ==> !reserved((#[trigger] es[i]).0) && decoded(es[i].1) is Ok,
        fields_decoded(es, k) matches Ok(fs) ==> names_wf(field_names(fs)),
        fields_decoded(es, k) matches Ok(fs) ==> forall|f: (Seq<char>, ValueTree)| #[trigger]
            fs.contains(f) <==> exists|i: int|
                0 <= i < k && (#[trigger] es[i]).0 == f.0 && decoded(es[i].1) == Ok::<
                    ValueTree,
                    ValueFault,
                >(f.1),
    decreases k,
{
    if k == 0 {
        let fs = Seq::<(Seq<char>, ValueTree)>::empty();
        assert(names_wf(field_names(fs)));
    } else {
        lemma_fields_decoded_each(es, (k - 1) as nat);
        if let Ok(before) = fields_decoded(es, (k - 1) as nat) {
            if !reserved(es[k - 1].0) {
                if let Ok(v) = decoded(es[k - 1].1) {
                    let name = es[k - 1].0;
                    let fs = field_set(before, name, v);
                    lemma_set_field(before, name, v);
                    lemma_field_set_names(before, name, v);
                    assert forall|f: (Seq<char>, ValueTree)| #[trigger]
                        fs.contains(f) <==> exists|i: int|
                            0 <= i < k && (#[trigger] es[i]).0 == f.0 && decoded(es[i].1) == Ok::<
                                ValueTree,
                                ValueFault,
                            >(f.1) by {
                        if fs.contains(f) {
                            if f.0 == name {
                                assert(es[k - 1].0 == f.0);
                            } else {
                                assert(before.contains(f));
                            }
                        }
                        if exists|i: int|
                            0 <= i < k && (#[trigger] es[i]).0 == f.0 && decoded(es[i].1) == Ok::<
                                ValueTree,
                                ValueFault,
                            >(f.1) {
                            let i = choose|i: int|
                                0 <= i < k && (#[trigger] es[i]).0 == f.0 && decoded(es[i].1)
                                    == Ok::<ValueTree, ValueFault>(f.1);
                            if i < k - 1 {
                                assert(before.contains(f));
                                assert(es[i].0 != es[k - 1].0);
                            }
                        }
                    }
                }
            }
        }
    }
}

/// Whether an object is one of the wrappers: its only member is `$bytes`, `$integer` or `$float`.
pub open spec fn is_wrapper(es: Members) -> bool {
    es.len() == 1 && (es[0].0 == "$bytes"@ || es[0].0 == "$integer"@ || es[0].0 == "$float"@)
}

/// An object that is no wrapper stands for a value exactly where none of its names is reserved and
/// each of its members stands for one; and then for the object that holds, under each name, what
/// the member stands for, and nothing else.
pub proof fn objects_decode_by_member(es: Members, name: Seq<char>, v: ValueTree)
    requires
        tree_wf(JsonTree::Object(es)),
        !is_wrapper(es),
    ensures
        decoded(JsonTree::Object(es)) is Ok <==> forall|i: int|
            0 <= i < es.len() ==> !((#[trigger] es[i]).0.len() > 0 && es[i].0[0] == '$') && decoded(
                es[i].1,
            ) is Ok,
        decoded(JsonTree::Object(es)) matches Ok(o) ==> (o matches ValueTree::Object(fs) && names_wf(
            field_names(fs),
        ) && (fs.contains((name, v)) <==> exists|i: int|
            0 <= i < es.len() && (#[trigger] es[i]).0 == name && decoded(es[i].1) == Ok::<
                ValueTree,
                ValueFault,
            >(v))),
{
    assert(distinct_keys(es));
    lemma_fields_decoded_each(es, es.len());
    if let Ok(fs) = fields_decoded(es, es.len()) {
        assert(fs.contains((name, v)) <==> exists|i: int|
            0 <= i < es.len() && (#[trigger] es[i]).0 == (name, v).0 && decoded(es[i].1) == Ok::<
                ValueTree,
                ValueFault,
            >((name, v).1));
    }
    assert forall|i: int| 0 <= i < es.len() implies reserved((#[trigger] es[i]).0) == (es[i].0.len()
        > 0 && es[i].0[0] == '$') by {}
}

/// The floating point numbers that JSON cannot hold are the negative zero, the infinities and what
/// is no number.
pub proof fn special_doubles_are_wrapped(bits: u64)
    ensures
        is_special(bits) <==> bits == 0x8000_0000_0000_0000 || (bits as int / 0x10_0000_0000_0000)
            % 0x800 == 0x7ff,
        is_special(bits) <==> encoded(ValueTree::Float64(bits)) is Object,
        !is_special(bits) ==> encoded(ValueTree::Float64(bits)) == JsonTree::Number(
            Number::Float(bits),
        ),
{
}

/// An integer is written and read back, and so is a floating point number, and bytes are.
pub proof fn wrapped_values_are_read_back(
    n: i64,
    bits: u64,
    integer: String,
    float: String,
    integer_text: &str,
    float_text: &str,
    read_integer: Result<i64, ValueError>,
    read_float: Result<u64, ValueError>,
)
    requires
        call_ensures(JsonInteger::encode, (n,), integer),
        call_ensures(JsonFloat::encode, (bits,), float),
        integer_text@ == integer@,
        float_text@ == float@,
        call_ensures(JsonInteger::decode, (integer_text,), read_integer),
        call_ensures(JsonFloat::decode, (float_text,), read_float),
    ensures
        read_integer == Ok::<i64, ValueError>(n),
        read_float == Ok::<u64, ValueError>(bits),
{
    let wrapper = seq![("$integer"@, JsonTree::Text(integer@))];
    lemma_wrapper_names();
    assert(wrapper[0] == ("$integer"@, JsonTree::Text(integer@)));
    assert(wrapper_bits("$integer"@, JsonTree::Text(integer@)) is Ok);
    assert(wrapper_bits(Seq::empty(), JsonTree::Text(integer@)) == wrapper_bits(
        "$integer"@,
        JsonTree::Text(integer@),
    ));
    assert(wrapper_bits(Seq::empty(), JsonTree::Text(float@)) == wrapper_bits(
        "$float"@,
        JsonTree::Text(float@),
    ));
}

/// An object can be made for a name exactly where the name is not reserved, and holds that one
/// field.
pub proof fn reserved_names_are_refused(
    name: String,
    value: ConvexValue,
    made: Result<ConvexObject, ValueError>,
)
    requires
        call_ensures(ConvexObject::for_value, (name, value), made),
    ensures
        made is Err <==> name@.len() > 0 && name@[0] == '$',
        made matches Ok(o) ==> o.tree() == ValueTree::Object(seq![(name@, value.tree())]),
        made matches Err(e) ==> e@ == ValueFault::ReservedField(name@),
{
}

/// A value is taken for an array, an object or a text exactly where it is one, and stays what it is.
pub proof fn values_are_taken_for_what_they_are(
    value: ConvexValue,
    wrapper: &str,
    array: Result<ConvexArray, ValueError>,
    object: Result<ConvexObject, ValueError>,
    text: Result<String, ValueError>,
)
    requires
        call_ensures(ConvexArray::from_value, (value,), array),
        call_ensures(ConvexObject::from_value, (value,), object),
        call_ensures(string_from_value, (value, wrapper), text),
    ensures
        array is Ok <==> value is Array,
        object is Ok <==> value is Object,
        text is Ok <==> value is String,
        array matches Ok(a) ==> value == ConvexValue::Array(a),
        object matches Ok(o) ==> value == ConvexValue::Object(o),
        text matches Ok(s) ==> value == ConvexValue::String(s),
{
}

/// A size is known exactly where both of its bounds are one number.
pub proof fn exact_sizes_are_known(lo: usize, hi: Option<usize>, size: Option<usize>)
    requires
        call_ensures(size_hint, (lo, hi), size),
    ensures
        size is Some <==> hi == Some(lo),
        size matches Some(n) ==> n == lo,
{
}

/// A value that is written as text is read back as that value, as long as it nests no deeper than
/// the reader goes.
pub proof fn written_values_are_read_back(
    value: ConvexValue,
    written: Result<String, ValueError>,
    text: &str,
    read: Result<ConvexValue, ValueError>,
)
    requires
        call_ensures(ConvexValue::json_serialize, (&value,), written),
        written is Ok ==> text@ == written->Ok_0@,
        tree_depth(encoded(value.tree())) <= MAX_DEPTH,
        call_ensures(json_deserialize, (text,), read),
    ensures
        written is Ok,
        read matches Ok(v) && v.tree() == value.tree(),
{
}

/// What is said of a fault passes on what was said of the text, and otherwise names what is wrong.
pub proof fn value_faults_are_explained(f: ValueFault)
    ensures
        f matches ValueFault::Syntax(s) ==> fault_message(f) == s,
        f matches ValueFault::Base64(s) ==> fault_message(f) == s,
        f matches ValueFault::NotText(s) ==> occurs(fault_message(f), s),
        f matches ValueFault::WrongLength(n) ==> fault_message(f) == "expected 8 bytes, got "@
            + decimal(n),
        f matches ValueFault::ReservedField(s) ==> occurs(fault_message(f), s),
        f matches ValueFault::FloatAsNumber(bits) ==> occurs(fault_message(f), double_text(bits)),
{
    match f {
        ValueFault::NotText(s) => {
            parts_occur_where_they_stand("expected a string for "@, s, " value"@);
        },
        ValueFault::ReservedField(s) => {
            parts_occur_where_they_stand(
                "Field name "@,
                s,
                " starts with '$', which is reserved"@,
            );
        },
        ValueFault::FloatAsNumber(bits) => {
            parts_occur_where_they_stand(
                "Float64 "@,
                double_text(bits),
                " should be encoded as a number"@,
            );
        },
        _ => {},
    }
}

/// Setting a field of an object succeeds exactly where its name is not reserved; the object then
/// holds the value under the name, and everything else that it held. A refused field changes
/// nothing.
pub proof fn objects_take_fields(
    object: &mut ConvexObject,
    name: String,
    value: ConvexValue,
    set: Result<(), ValueError>,
    other: Seq<char>,
    w: ValueTree,
)
    requires
        names_wf(field_names(old(object).tree()->Object_0)),
        call_ensures(ConvexObject::set, (object, name, value), set),
    ensures
        set is Err <==> name@.len() > 0 && name@[0] == '$',
        set is Err ==> final(object).tree() == old(object).tree(),
        set is Ok ==> (final(object).tree() matches ValueTree::Object(fs) && (fs.contains((name@, w))
            <==> w == value.tree()) && (other != name@ ==> (fs.contains((other, w)) <==> old(
            object,
        ).tree()->Object_0.contains((other, w))))),
{
    if set is Ok {
        fields_hold_what_is_set(old(object).tree()->Object_0, name@, value.tree(), other, w);
    }
}

} // verus!
