//! JSON values: what they mean, how they are compared, and the text they are read from and
//! written to.
//!
//! Three views of a JSON value are used. [`Json`] is the value that programs hold. [`JsonTree`]
//! is its mathematical content, with the members of an object in their written order.
//! [`JsonModel`] is what the value means, where the order of an object's members and the sign of
//! a zero do not matter.

use vstd::prelude::*;
use crate::text::same_text;

verus! {

/// A JSON number. A `NegInt` is below zero; a `Float` holds the bits of a finite IEEE 754 double.
#[derive(Debug, Clone, Copy, PartialEq, Eq, Structural)]
pub enum Number {
    PosInt(u64),
    NegInt(i64),
    Float(u64),
}

/// A JSON value.
#[derive(Debug)]
pub enum Json {
    Null,
    Bool(bool),
    Number(Number),
    Text(String),
    Array(Vec<Json>),
    Object(Vec<(String, Json)>),
}

/// The content of a JSON value.
pub enum JsonTree {
    Null,
    Bool(bool),
    Number(Number),
    Text(Seq<char>),
    Array(Seq<JsonTree>),
    Object(Seq<(Seq<char>, JsonTree)>),
}

/// The meaning of a JSON value.
pub enum JsonModel {
    Null,
    Bool(bool),
    Number(Number),
    Text(Seq<char>),
    Array(Seq<JsonModel>),
    Object(Map<Seq<char>, JsonModel>),
}

/// The bits of negative zero.
pub const NEGATIVE_ZERO_BITS: u64 = 0x8000_0000_0000_0000;

/// The biased exponent of a double.
pub open spec fn exponent_bits(bits: u64) -> int {
    (bits as int / 0x10_0000_0000_0000) % 0x800
}

/// Whether the double with these bits is neither infinite nor a NaN.
pub open spec fn is_finite(bits: u64) -> bool {
    exponent_bits(bits) != 0x7ff
}

/// Whether a number is one that JSON can hold.
pub open spec fn number_wf(n: Number) -> bool {
    match n {
        Number::PosInt(_) => true,
        Number::NegInt(i) => i < 0,
        Number::Float(bits) => is_finite(bits),
    }
}

/// The members of an object, as content.
pub type Members = Seq<(Seq<char>, JsonTree)>;

/// The position of the first member with the given key, or -1.
pub open spec fn member_index(es: Members, key: Seq<char>) -> int
    decreases es.len(),
{
    if es.len() == 0 {
        -1
    } else {
        let before = member_index(es.drop_last(), key);
        if before >= 0 {
            before
        } else if es.last().0 == key {
            es.len() - 1
        } else {
            -1
        }
    }
}

/// Whether an object has a member with the given key.
pub open spec fn has_member(es: Members, key: Seq<char>) -> bool {
    member_index(es, key) >= 0
}

/// Whether no key occurs twice.
pub open spec fn distinct_keys(es: Members) -> bool {
    forall|i: int, j: int| 0 <= i < j < es.len() ==> (#[trigger] es[i]).0 != (#[trigger] es[j]).0
}

/// Whether every number is one that JSON can hold, no object names a key twice, and every index
/// into an array is a machine number.
pub open spec fn tree_wf(t: JsonTree) -> bool
    decreases t,
{
    match t {
        JsonTree::Number(n) => number_wf(n),
        JsonTree::Array(ts) => {
            &&& ts.len() <= usize::MAX
            &&& forall|i: int| 0 <= i < ts.len() ==> tree_wf(#[trigger] ts[i])
        },
        JsonTree::Object(es) => {
            &&& distinct_keys(es)
            &&& forall|i: int| 0 <= i < es.len() ==> tree_wf((#[trigger] es[i]).1)
        },
        _ => true,
    }
}

/// The deepest nesting of arrays and objects.
pub open spec fn tree_depth(t: JsonTree) -> nat
    decreases t, 0nat,
{
    match t {
        JsonTree::Array(ts) => 1 + deepest_element(ts, ts.len()),
        JsonTree::Object(es) => 1 + deepest_member(es, es.len()),
        _ => 0,
    }
}

/// The deepest nesting below the first `k` elements.
pub open spec fn deepest_element(ts: Seq<JsonTree>, k: nat) -> nat
    decreases ts, k,
{
    if k == 0 || k > ts.len() {
        0
    } else {
        let before = deepest_element(ts, (k - 1) as nat);
        let last = tree_depth(ts[k - 1]);
        if last > before {
            last
        } else {
            before
        }
    }
}

/// The deepest nesting below the first `k` members.
pub open spec fn deepest_member(es: Members, k: nat) -> nat
    decreases es, k,
{
    if k == 0 || k > es.len() {
        0
    } else {
        let before = deepest_member(es, (k - 1) as nat);
        let last = tree_depth(es[k - 1].1);
        if last > before {
            last
        } else {
            before
        }
    }
}

/// What a number means: the two zeros are one number.
pub open spec fn number_meaning(n: Number) -> Number {
    if n == Number::Float(NEGATIVE_ZERO_BITS) {
        Number::Float(0)
    } else {
        n
    }
}

/// What a JSON value means.
pub open spec fn meaning(t: JsonTree) -> JsonModel
    decreases t,
{
    match t {
        JsonTree::Null => JsonModel::Null,
        JsonTree::Bool(b) => JsonModel::Bool(b),
        JsonTree::Number(n) => JsonModel::Number(number_meaning(n)),
        JsonTree::Text(s) => JsonModel::Text(s),
        JsonTree::Array(ts) => JsonModel::Array(
            Seq::new(
                ts.len(),
                |i: int|
                    if 0 <= i < ts.len() {
                        meaning(ts[i])
                    } else {
                        JsonModel::Null
                    },
            ),
        ),
        JsonTree::Object(es) => JsonModel::Object(
            Map::new(
                |k: Seq<char>| has_member(es, k),
                |k: Seq<char>|
                    {
                        let i = member_index(es, k);
                        if 0 <= i < es.len() {
                            meaning(es[i].1)
                        } else {
                            JsonModel::Null
                        }
                    },
            ),
        ),
    }
}

impl Json {
    /// The content of a value.
    pub open spec fn tree(self) -> JsonTree
        decreases self,
    {
        match self {
            Json::Null => JsonTree::Null,
            Json::Bool(b) => JsonTree::Bool(b),
            Json::Number(n) => JsonTree::Number(n),
            Json::Text(s) => JsonTree::Text(s@),
            Json::Array(vs) => JsonTree::Array(
                Seq::new(
                    vs@.len(),
                    |i: int|
                        if 0 <= i < vs@.len() {
                            vs@[i].tree()
                        } else {
                            JsonTree::Null
                        },
                ),
            ),
            Json::Object(es) => JsonTree::Object(
                Seq::new(
                    es@.len(),
                    |i: int|
                        if 0 <= i < es@.len() {
                            (es@[i].0@, es@[i].1.tree())
                        } else {
                            (Seq::<char>::empty(), JsonTree::Null)
                        },
                ),
            ),
        }
    }
}

/// The contents of some values.
pub open spec fn trees(vs: Seq<Json>) -> Seq<JsonTree> {
    Seq::new(vs.len(), |i: int| vs[i].tree())
}

/// The members of an object, as content.
pub open spec fn members(es: Seq<(String, Json)>) -> Members {
    Seq::new(es.len(), |i: int| (es[i].0@, es[i].1.tree()))
}

/// The content of an array is the contents of its elements.
pub proof fn lemma_array_tree(vs: Vec<Json>)
    ensures
        Json::Array(vs).tree() == JsonTree::Array(trees(vs@)),
{
    assert(Json::Array(vs).tree()->Array_0 =~= trees(vs@));
}

/// The content of an object is the contents of its members.
pub proof fn lemma_object_tree(es: Vec<(String, Json)>)
    ensures
        Json::Object(es).tree() == JsonTree::Object(members(es@)),
{
    assert(Json::Object(es).tree()->Object_0 =~= members(es@));
}

/// Where [`member_index`] finds a key, and that it finds every key.
pub proof fn lemma_member_index(es: Members, key: Seq<char>)
    ensures
        -1 <= member_index(es, key) < es.len(),
        member_index(es, key) >= 0 ==> es[member_index(es, key)].0 == key,
        forall|i: int|
            0 <= i < es.len() && (#[trigger] es[i]).0 == key ==> 0 <= member_index(es, key) <= i,
    decreases es.len(),
{
    if es.len() > 0 {
        lemma_member_index(es.drop_last(), key);
        assert forall|i: int| 0 <= i < es.len() && (#[trigger] es[i]).0 == key implies 0
            <= member_index(es, key) <= i by {
            if i < es.len() - 1 {
                assert(es.drop_last()[i] == es[i]);
            }
        }
    }
}

/// The meaning of an object at a key.
pub proof fn lemma_object_meaning(es: Members)
    ensures
        meaning(JsonTree::Object(es)) is Object,
        forall|k: Seq<char>|
            #[trigger] meaning(JsonTree::Object(es))->Object_0.dom().contains(k) == has_member(
                es,
                k,
            ),
        forall|k: Seq<char>|
            has_member(es, k) ==> #[trigger] meaning(JsonTree::Object(es))->Object_0[k] == meaning(
                es[member_index(es, k)].1,
            ),
{
    assert forall|k: Seq<char>| has_member(es, k) implies #[trigger] meaning(
        JsonTree::Object(es),
    )->Object_0[k] == meaning(es[member_index(es, k)].1) by {
        lemma_member_index(es, k);
    }
}

/// The elements of a well-formed array are well-formed.
pub proof fn lemma_array_wf(ts: Seq<JsonTree>, i: int)
    requires
        tree_wf(JsonTree::Array(ts)),
        0 <= i < ts.len(),
    ensures
        tree_wf(ts[i]),
{
    let t = JsonTree::Array(ts);
    assert(tree_wf(t->Array_0[i]));
}

/// The members of a well-formed object are well-formed.
pub proof fn lemma_object_wf(es: Members, i: int)
    requires
        tree_wf(JsonTree::Object(es)),
        0 <= i < es.len(),
    ensures
        tree_wf(es[i].1),
{
}

/// The meaning of an array at an index.
pub proof fn lemma_array_meaning(ts: Seq<JsonTree>)
    ensures
        meaning(JsonTree::Array(ts)) is Array,
        meaning(JsonTree::Array(ts))->Array_0.len() == ts.len(),
        forall|i: int|
            0 <= i < ts.len() ==> #[trigger] meaning(JsonTree::Array(ts))->Array_0[i] == meaning(
                ts[i],
            ),
{
}

pub proof fn lemma_element_smaller(vs: Vec<Json>, i: int)
    requires
        0 <= i < vs@.len(),
    ensures
        decreases_to!(Json::Array(vs) => vs@[i]),
{
    let whole = Json::Array(vs);
    assert(decreases_to!(whole => whole->Array_0));
    assert(decreases_to!(vs => vs@));
    assert(decreases_to!(vs@ => vs@[i]));
}

pub proof fn lemma_member_smaller(es: Vec<(String, Json)>, i: int)
    requires
        0 <= i < es@.len(),
    ensures
        decreases_to!(Json::Object(es) => es@[i].1),
{
    let whole = Json::Object(es);
    assert(decreases_to!(whole => whole->Object_0));
    assert(decreases_to!(es => es@));
    assert(decreases_to!(es@ => es@[i]));
    assert(decreases_to!(es@[i] => es@[i].1));
}

/// The position of the first member with the given key.
pub fn find_member(es: &Vec<(String, Json)>, key: &str) -> (r: Option<usize>)
    ensures
        match r {
            Some(i) => member_index(members(es@), key@) == i,
            None => member_index(members(es@), key@) == -1,
        },
{
    let mut i: usize = 0;
    while i < es.len()
        invariant
            i <= es.len(),
            member_index(members(es@).take(i as int), key@) == -1,
        decreases es.len() - i,
    {
        let ghost next = members(es@).take(i + 1);
        assert(next.drop_last() =~= members(es@).take(i as int));
        if same_text(es[i].0.as_str(), key) {
            proof {
                lemma_member_index(members(es@), key@);
                lemma_member_index(members(es@).take(i as int), key@);
                let found = member_index(members(es@), key@);
                assert(members(es@)[i as int].0 == key@);
                if found < i {
                    assert(members(es@).take(i as int)[found] == members(es@)[found]);
                }
            }
            return Some(i);
        }
        i += 1;
    }
    assert(members(es@).take(i as int) =~= members(es@));
    None
}

impl Json {
    /// A value with the same content.
    pub fn duplicate(&self) -> (r: Json)
        ensures
            r.tree() == self.tree(),
        decreases self,
    {
        match self {
            Json::Null => Json::Null,
            Json::Bool(b) => Json::Bool(*b),
            Json::Number(n) => Json::Number(*n),
            Json::Text(s) => Json::Text(s.clone()),
            Json::Array(vs) => {
                let mut out: Vec<Json> = Vec::new();
                let mut i: usize = 0;
                while i < vs.len()
                    invariant
                        i <= vs.len(),
                        *self == Json::Array(*vs),
                        trees(out@) == trees(vs@).take(i as int),
                    decreases vs.len() - i,
                {
                    proof {
                        lemma_element_smaller(*vs, i as int);
                    }
                    let v = vs[i].duplicate();
                    let ghost before = trees(out@);
                    out.push(v);
                    i += 1;
                    assert(trees(out@) =~= before.push(v.tree()));
                    assert(trees(out@) =~= trees(vs@).take(i as int));
                }
                proof {
                    lemma_array_tree(*vs);
                    lemma_array_tree(out);
                    assert(trees(out@) =~= trees(vs@));
                }
                Json::Array(out)
            },
            Json::Object(es) => {
                let mut out: Vec<(String, Json)> = Vec::new();
                let mut i: usize = 0;
                while i < es.len()
                    invariant
                        i <= es.len(),
                        *self == Json::Object(*es),
                        members(out@) == members(es@).take(i as int),
                    decreases es.len() - i,
                {
                    proof {
                        lemma_member_smaller(*es, i as int);
                    }
                    let v = es[i].1.duplicate();
                    let ghost before = members(out@);
                    out.push((es[i].0.clone(), v));
                    i += 1;
                    assert(members(out@) =~= before.push(members(es@)[i - 1]));
                    assert(members(out@) =~= members(es@).take(i as int));
                }
                proof {
                    lemma_object_tree(*es);
                    lemma_object_tree(out);
                    assert(members(out@) =~= members(es@));
                }
                Json::Object(out)
            },
        }
    }

    /// Whether two values mean the same.
    pub fn equals(&self, other: &Json) -> (r: bool)
        requires
            tree_wf(self.tree()),
            tree_wf(other.tree()),
        ensures
            r == (meaning(self.tree()) == meaning(other.tree())),
        decreases self,
    {
        match (self, other) {
            (Json::Null, Json::Null) => true,
            (Json::Bool(a), Json::Bool(b)) => *a == *b,
            (Json::Number(a), Json::Number(b)) => same_number(*a, *b),
            (Json::Text(a), Json::Text(b)) => same_text(a.as_str(), b.as_str()),
            (Json::Array(a), Json::Array(b)) => {
                proof {
                    lemma_array_tree(*a);
                    lemma_array_tree(*b);
                    lemma_array_meaning(trees(a@));
                    lemma_array_meaning(trees(b@));
                }
                if a.len() != b.len() {
                    return false;
                }
                let mut i: usize = 0;
                while i < a.len()
                    invariant
                        i <= a.len() == b.len(),
                        *self == Json::Array(*a),
                        *other == Json::Array(*b),
                        tree_wf(JsonTree::Array(trees(a@))),
                        tree_wf(JsonTree::Array(trees(b@))),
                        meaning(self.tree()) is Array,
                        meaning(other.tree()) is Array,
                        forall|j: int|
                            0 <= j < a.len() ==> #[trigger] meaning(self.tree())->Array_0[j]
                                == meaning(a@[j].tree()),
                        forall|j: int|
                            0 <= j < b.len() ==> #[trigger] meaning(other.tree())->Array_0[j]
                                == meaning(b@[j].tree()),
                        forall|j: int|
                            0 <= j < i ==> meaning((#[trigger] a@[j]).tree()) == meaning(
                                b@[j].tree(),
                            ),
                    decreases a.len() - i,
                {
                    let ghost ta = trees(a@);
                    let ghost tb = trees(b@);
                    proof {
                        lemma_array_wf(ta, i as int);
                        lemma_array_wf(tb, i as int);
                    }
                    proof {
                        lemma_element_smaller(*a, i as int);
                    }
                    if !a[i].equals(&b[i]) {
                        assert(meaning(self.tree())->Array_0[i as int] != meaning(
                            other.tree(),
                        )->Array_0[i as int]);
                        return false;
                    }
                    i += 1;
                }
                assert(meaning(self.tree())->Array_0 =~= meaning(other.tree())->Array_0);
                true
            },
            (Json::Object(a), Json::Object(b)) => {
                proof {
                    lemma_object_tree(*a);
                    lemma_object_tree(*b);
                    lemma_object_meaning(members(a@));
                    lemma_object_meaning(members(b@));
                }
                let ghost ma = meaning(self.tree())->Object_0;
                let ghost mb = meaning(other.tree())->Object_0;
                let mut i: usize = 0;
                while i < a.len()
                    invariant
                        i <= a.len(),
                        *self == Json::Object(*a),
                        *other == Json::Object(*b),
                        tree_wf(JsonTree::Object(members(a@))),
                        tree_wf(JsonTree::Object(members(b@))),
                        self.tree() == JsonTree::Object(members(a@)),
                        other.tree() == JsonTree::Object(members(b@)),
                        ma == meaning(self.tree())->Object_0,
                        mb == meaning(other.tree())->Object_0,
                        forall|j: int|
                            0 <= j < i ==> has_member(members(b@), (#[trigger] members(a@)[j]).0)
                                && meaning(members(a@)[j].1) == mb[members(a@)[j].0],
                    decreases a.len() - i,
                {
                    let ghost ta = members(a@);
                    let ghost tb = members(b@);
                    let ghost key = ta[i as int].0;
                    proof {
                        lemma_object_meaning(ta);
                        lemma_object_meaning(tb);
                        lemma_member_index(ta, key);
                        lemma_member_index(tb, key);
                        assert(member_index(ta, key) == i);
                        assert(ma.dom().contains(key));
                    }
                    match find_member(b, a[i].0.as_str()) {
                        None => {
                            assert(!mb.dom().contains(key));
                            return false;
                        },
                        Some(k) => {
                            assert(tb[k as int] == (b@[k as int].0@, b@[k as int].1.tree()));
                            assert(tree_wf(tb[k as int].1));
                            assert(tree_wf(ta[i as int].1));
                            proof {
                                lemma_member_smaller(*a, i as int);
                            }
                            if !a[i].1.equals(&b[k].1) {
                                assert(ma[key] != mb[key]);
                                return false;
                            }
                        },
                    }
                    i += 1;
                }
                i = 0;
                while i < b.len()
                    invariant
                        i <= b.len(),
                        *self == Json::Object(*a),
                        *other == Json::Object(*b),
                        self.tree() == JsonTree::Object(members(a@)),
                        other.tree() == JsonTree::Object(members(b@)),
                        ma == meaning(self.tree())->Object_0,
                        mb == meaning(other.tree())->Object_0,
                        forall|j: int|
                            0 <= j < i ==> has_member(members(a@), (#[trigger] members(b@)[j]).0),
                    decreases b.len() - i,
                {
                    proof {
                        lemma_object_meaning(members(a@));
                        lemma_object_meaning(members(b@));
                        lemma_member_index(members(b@), members(b@)[i as int].0);
                    }
                    if find_member(a, b[i].0.as_str()).is_none() {
                        assert(mb.dom().contains(members(b@)[i as int].0));
                        assert(!ma.dom().contains(members(b@)[i as int].0));
                        return false;
                    }
                    i += 1;
                }
                assert(ma =~= mb) by {
                    let ta = members(a@);
                    let tb = members(b@);
                    assert forall|k: Seq<char>| #[trigger] ma.dom().contains(k)
                        == mb.dom().contains(k) by {
                        lemma_member_index(ta, k);
                        lemma_member_index(tb, k);
                        if has_member(ta, k) {
                            assert(ta[member_index(ta, k)].0 == k);
                        }
                        if has_member(tb, k) {
                            assert(tb[member_index(tb, k)].0 == k);
                        }
                    }
                    assert forall|k: Seq<char>| ma.dom().contains(k) implies #[trigger] ma[k]
                        == mb[k] by {
                        lemma_member_index(ta, k);
                        assert(ta[member_index(ta, k)].0 == k);
                    }
                }
                true
            },
            _ => false,
        }
    }
}

fn same_number(a: Number, b: Number) -> (r: bool)
    ensures
        r == (number_meaning(a) == number_meaning(b)),
{
    let zero = Number::Float(0);
    let negative_zero = Number::Float(NEGATIVE_ZERO_BITS);
    a == b || (a == zero && b == negative_zero) || (a == negative_zero && b == zero)
}

/// Two numbers mean the same exactly where they are written alike, or where both are a floating
/// point zero.
pub proof fn numbers_mean_what_they_say(a: Number, b: Number)
    ensures
        number_meaning(a) == number_meaning(b) <==> a == b || ((a == Number::Float(0) || a
            == Number::Float(0x8000_0000_0000_0000)) && (b == Number::Float(0) || b
            == Number::Float(0x8000_0000_0000_0000))),
{
}

/// Two arrays mean the same exactly where they have one length and their elements mean the same,
/// place by place.
pub proof fn arrays_mean_their_elements(a: Seq<JsonTree>, b: Seq<JsonTree>)
    ensures
        meaning(JsonTree::Array(a)) == meaning(JsonTree::Array(b)) <==> a.len() == b.len() && (forall|
            i: int,
        |
            0 <= i < a.len() ==> meaning(#[trigger] a[i]) == meaning(b[i])),
{
    lemma_array_meaning(a);
    lemma_array_meaning(b);
    let x = meaning(JsonTree::Array(a));
    let y = meaning(JsonTree::Array(b));
    if x == y {
        assert forall|i: int| 0 <= i < a.len() implies meaning(#[trigger] a[i]) == meaning(b[i]) by {
            assert(x->Array_0[i] == y->Array_0[i]);
        }
    }
    if a.len() == b.len() && (forall|i: int|
        0 <= i < a.len() ==> meaning(#[trigger] a[i]) == meaning(b[i])) {
        assert forall|i: int| 0 <= i < a.len() implies x->Array_0[i] == y->Array_0[i] by {
            assert(meaning(a[i]) == meaning(b[i]));
        }
        assert(x->Array_0 =~= y->Array_0);
    }
}

/// Two objects mean the same exactly where they have the same keys and, under each of them, values
/// that mean the same; the order of their members makes no difference.
pub proof fn objects_mean_their_members(a: Members, b: Members)
    ensures
        meaning(JsonTree::Object(a)) == meaning(JsonTree::Object(b)) <==> (forall|k: Seq<char>| #[trigger]
            has_member(a, k) == has_member(b, k)) && (forall|k: Seq<char>| #[trigger]
            has_member(a, k) && has_member(b, k) ==> meaning(a[member_index(a, k)].1) == meaning(
                b[member_index(b, k)].1,
            )),
{
    lemma_object_meaning(a);
    lemma_object_meaning(b);
    let x = meaning(JsonTree::Object(a));
    let y = meaning(JsonTree::Object(b));
    if x == y {
        assert forall|k: Seq<char>| #[trigger] has_member(a, k) == has_member(b, k) by {
            assert(x->Object_0.dom().contains(k) == y->Object_0.dom().contains(k));
        }
        assert forall|k: Seq<char>| #[trigger] has_member(a, k) && has_member(b, k) implies meaning(
            a[member_index(a, k)].1,
        ) == meaning(b[member_index(b, k)].1) by {
            assert(x->Object_0[k] == y->Object_0[k]);
        }
    }
    if (forall|k: Seq<char>| #[trigger] has_member(a, k) == has_member(b, k)) && (forall|
        k: Seq<char>,
    | #[trigger]
        has_member(a, k) && has_member(b, k) ==> meaning(a[member_index(a, k)].1) == meaning(
            b[member_index(b, k)].1,
        )) {
        assert(x->Object_0 =~= y->Object_0) by {
            assert forall|k: Seq<char>| x->Object_0.dom().contains(k) == #[trigger] y->Object_0.dom().contains(
                k,
            ) by {
                assert(has_member(a, k) == has_member(b, k));
            }
            assert forall|k: Seq<char>|
                x->Object_0.dom().contains(k) implies #[trigger] x->Object_0[k] == y->Object_0[k] by {
                assert(has_member(a, k) && has_member(b, k));
            }
        }
    }
}

/// Values of different kinds never mean the same, nor do different texts.
pub proof fn kinds_are_told_apart(a: JsonTree, b: JsonTree)
    requires
        meaning(a) == meaning(b),
    ensures
        a is Null <==> b is Null,
        a is Bool <==> b is Bool,
        a is Number <==> b is Number,
        a is Text <==> b is Text,
        a is Array <==> b is Array,
        a is Object <==> b is Object,
        a is Text || a is Bool ==> a == b,
{
    if let JsonTree::Object(es) = a {
        lemma_object_meaning(es);
    }
    if let JsonTree::Object(es) = b {
        lemma_object_meaning(es);
    }
}

} // verus!
