//! The canonical form of JSON that a function returns: keys in order, and plain numbers as doubles.
//!
//! JSON that stands for a value has the form of that value. JSON that stands for none on its own,
//! for want of the timestamp of its commit, has that form around the places where the timestamp
//! goes.

use vstd::prelude::*;
use crate::edit::{lemma_array_of_wf, lemma_object_of_wf};
use crate::json::{
    distinct_keys, lemma_array_tree, lemma_array_wf, lemma_element_smaller, lemma_member_smaller,
    lemma_object_tree, lemma_object_wf, members, tree_wf, trees, Json, JsonTree, Members,
    Number,
};
use crate::order::{
    lemma_text_less_irreflexive, lemma_text_less_total, lemma_text_less_transitive, less_text,
    text_less,
};
use crate::value::{
    decode_value, decoded, double_of, encoded, is_reserved, is_special, reserved,
};

verus! {

/// How many of the first members come before a key.
pub open spec fn member_place(es: Members, key: Seq<char>) -> nat
    decreases es.len(),
{
    if es.len() > 0 && text_less(es[0].0, key) {
        1 + member_place(es.skip(1), key)
    } else {
        0
    }
}

/// Members in order with another one put in its place.
pub open spec fn member_placed(es: Members, key: Seq<char>, t: JsonTree) -> Members {
    es.insert(member_place(es, key) as int, (key, t))
}

/// Whether members stand in the order of their keys, none twice.
pub open spec fn keys_in_order(es: Members) -> bool {
    forall|i: int, j: int|
        0 <= i < j < es.len() ==> text_less((#[trigger] es[i]).0, (#[trigger] es[j]).0)
}

/// Whether an object stands for what is filled in later: it has one member, under a reserved name.
pub open spec fn is_token(es: Members) -> bool {
    es.len() == 1 && reserved(es[0].0)
}

/// The canonical form of some JSON. What is filled in later keeps its form.
pub open spec fn canonical(t: JsonTree) -> JsonTree
    decreases t, 0nat,
{
    match decoded(t) {
        Ok(v) => encoded(v),
        Err(_) => match t {
            JsonTree::Array(ts) => JsonTree::Array(canonical_elements(ts, ts.len())),
            JsonTree::Object(es) => if is_token(es) {
                t
            } else {
                JsonTree::Object(canonical_members(es, es.len()))
            },
            _ => t,
        },
    }
}

/// The canonical forms of the first `k` elements.
pub open spec fn canonical_elements(ts: Seq<JsonTree>, k: nat) -> Seq<JsonTree>
    decreases ts, k,
{
    if k == 0 || k > ts.len() {
        Seq::empty()
    } else {
        canonical_elements(ts, (k - 1) as nat).push(canonical(ts[k - 1]))
    }
}

/// The first `k` members in order, each in its canonical form.
pub open spec fn canonical_members(es: Members, k: nat) -> Members
    decreases es, k,
{
    if k == 0 || k > es.len() {
        Seq::empty()
    } else {
        member_placed(
            canonical_members(es, (k - 1) as nat),
            es[k - 1].0,
            canonical(es[k - 1].1),
        )
    }
}

proof fn lemma_member_place(es: Members, key: Seq<char>)
    ensures
        member_place(es, key) <= es.len(),
        forall|i: int| 0 <= i < member_place(es, key) ==> text_less((#[trigger] es[i]).0, key),
        member_place(es, key) < es.len() ==> !text_less(es[member_place(es, key) as int].0, key),
    decreases es.len(),
{
    if es.len() > 0 && text_less(es[0].0, key) {
        lemma_member_place(es.skip(1), key);
        assert forall|i: int| 0 <= i < member_place(es, key) implies text_less(
            (#[trigger] es[i]).0,
            key,
        ) by {
            if i > 0 {
                assert(es.skip(1)[i - 1] == es[i]);
            }
        }
    }
}

proof fn lemma_placed_in_order(es: Members, key: Seq<char>, t: JsonTree)
    requires
        keys_in_order(es),
        forall|i: int| 0 <= i < es.len() ==> (#[trigger] es[i]).0 != key,
    ensures
        keys_in_order(member_placed(es, key, t)),
{
    lemma_member_place(es, key);
    let p = member_place(es, key) as int;
    let out = member_placed(es, key, t);
    assert forall|i: int, j: int| 0 <= i < j < out.len() implies text_less(
        (#[trigger] out[i]).0,
        (#[trigger] out[j]).0,
    ) by {
        if j < p {
            assert(text_less(es[i].0, es[j].0));
        } else if j == p {
            assert(text_less(es[i].0, key));
        } else {
            // The member at `p` comes after the key, and so does each that follows it.
            lemma_text_less_total(es[p].0, key);
            if p < j - 1 {
                assert(text_less(es[p].0, es[j - 1].0));
                lemma_text_less_transitive(key, es[p].0, es[j - 1].0);
            }
            if i < p {
                assert(text_less(es[i].0, key));
                lemma_text_less_transitive(es[i].0, key, es[j - 1].0);
            } else if i > p {
                assert(text_less(es[i - 1].0, es[j - 1].0));
            }
        }
    }
}

proof fn lemma_members_in_order(es: Members, k: nat)
    requires
        distinct_keys(es),
        k <= es.len(),
    ensures
        keys_in_order(canonical_members(es, k)),
        canonical_members(es, k).len() == k,
        forall|i: int|
            0 <= i < k ==> exists|j: int|
                0 <= j < k && (#[trigger] canonical_members(es, k)[i]) == (
                    es[j].0,
                    canonical((#[trigger] es[j]).1),
                ),
    decreases k,
{
    if k > 0 {
        let before = canonical_members(es, (k - 1) as nat);
        let key = es[k - 1].0;
        lemma_members_in_order(es, (k - 1) as nat);
        lemma_member_place(before, key);
        let p = member_place(before, key) as int;
        let out = canonical_members(es, k);
        assert forall|i: int| 0 <= i < before.len() implies (#[trigger] before[i]).0 != key by {
            let j = choose|j: int|
                0 <= j < k - 1 && before[i] == (es[j].0, canonical((#[trigger] es[j]).1));
            assert(es[j].0 != es[k - 1].0);
        }
        lemma_placed_in_order(before, key, canonical(es[k - 1].1));
        assert forall|i: int| 0 <= i < k implies exists|j: int|
            0 <= j < k && (#[trigger] out[i]) == (es[j].0, canonical((#[trigger] es[j]).1)) by {
            if i == p {
                assert(out[i] == (es[k - 1].0, canonical(es[k - 1].1)));
            } else {
                let at = if i < p {
                    i
                } else {
                    i - 1
                };
                assert(out[i] == before[at]);
                let j = choose|j: int|
                    0 <= j < k - 1 && before[at] == (es[j].0, canonical((#[trigger] es[j]).1));
                assert(out[i] == (es[j].0, canonical(es[j].1)));
            }
        }
    }
}

/// An object in which something is filled in later comes back with its keys in order, as any other
/// object does.
pub proof fn canonical_keys_are_in_order(es: Members)
    requires
        tree_wf(JsonTree::Object(es)),
        !is_token(es),
        decoded(JsonTree::Object(es)) is Err,
    ensures
        canonical(JsonTree::Object(es)) matches JsonTree::Object(out) && keys_in_order(out)
            && out.len() == es.len(),
{
    lemma_members_in_order(es, es.len());
}

/// A plain number comes back as a double.
pub proof fn canonical_numbers_are_doubles(n: Number)
    requires
        !is_special(double_of(n)),
    ensures
        canonical(JsonTree::Number(n)) == JsonTree::Number(Number::Float(double_of(n))),
{
}

fn place_member(es: &mut Vec<(String, Json)>, key: &str, v: Json)
    ensures
        members(final(es)@) == member_placed(members(old(es)@), key@, v.tree()),
{
    let ghost all = members(es@);
    let ghost t = v.tree();
    let mut p: usize = 0;
    assert(all.skip(0) =~= all);
    while p < es.len() && less_text(es[p].0.as_str(), key)
        invariant
            p <= es.len(),
            all == members(es@),
            member_place(all, key@) == p + member_place(all.skip(p as int), key@),
        decreases es.len() - p,
    {
        assert(all.skip(p as int).skip(1) =~= all.skip(p + 1));
        assert(all.skip(p as int)[0] == all[p as int]);
        p += 1;
    }
    assert(member_place(all.skip(p as int), key@) == 0) by {
        if p < all.len() {
            assert(all.skip(p as int)[0] == all[p as int]);
        }
    }
    es.insert(p, (key.to_owned(), v));
    assert(members(es@) =~= all.insert(p as int, (key@, t)));
}

/// Put JSON into its canonical form.
pub fn canonical_json(v: &Json) -> (r: Json)
    requires
        tree_wf(v.tree()),
    ensures
        r.tree() == canonical(v.tree()),
        tree_wf(r.tree()),
    decreases v,
{
    if let Ok(value) = decode_value(v) {
        return value.to_internal_json();
    }
    match v {
        Json::Array(vs) => {
            let ghost all = trees(vs@);
            proof {
                lemma_array_tree(*vs);
            }
            let mut out: Vec<Json> = Vec::new();
            assert(trees(out@) =~= canonical_elements(all, 0));
            let mut i: usize = 0;
            while i < vs.len()
                invariant
                    i <= vs.len(),
                    *v == Json::Array(*vs),
                    all == trees(vs@),
                    tree_wf(JsonTree::Array(all)),
                    out.len() == i,
                    trees(out@) == canonical_elements(all, i as nat),
                    forall|j: int| 0 <= j < i ==> tree_wf(#[trigger] trees(out@)[j]),
                decreases vs.len() - i,
            {
                proof {
                    lemma_array_wf(all, i as int);
                    lemma_element_smaller(*vs, i as int);
                }
                let ghost before = trees(out@);
                let item = canonical_json(&vs[i]);
                out.push(item);
                i += 1;
                assert(trees(out@) =~= before.push(item.tree()));
                assert forall|j: int| 0 <= j < i implies tree_wf(#[trigger] trees(out@)[j]) by {
                    if j < i - 1 {
                        assert(trees(out@)[j] == before[j]);
                    }
                }
            }
            proof {
                lemma_array_tree(out);
                lemma_array_of_wf(trees(out@));
            }
            Json::Array(out)
        },
        Json::Object(es) => {
            let ghost all = members(es@);
            proof {
                lemma_object_tree(*es);
            }
            if es.len() == 1 && is_reserved(es[0].0.as_str()) {
                assert(all[0].0 == es@[0].0@);
                return v.duplicate();
            }
            let mut out: Vec<(String, Json)> = Vec::new();
            assert(members(out@) =~= canonical_members(all, 0));
            let mut i: usize = 0;
            while i < es.len()
                invariant
                    i <= es.len(),
                    *v == Json::Object(*es),
                    all == members(es@),
                    tree_wf(JsonTree::Object(all)),
                    members(out@) == canonical_members(all, i as nat),
                    forall|j: int| 0 <= j < i ==> tree_wf(canonical((#[trigger] all[j]).1)),
                decreases es.len() - i,
            {
                proof {
                    lemma_object_wf(all, i as int);
                    lemma_member_smaller(*es, i as int);
                }
                let item = canonical_json(&es[i].1);
                place_member(&mut out, es[i].0.as_str(), item);
                i += 1;
            }
            proof {
                lemma_object_tree(out);
                lemma_members_in_order(all, all.len());
                let placed = members(out@);
                assert forall|a: int, b: int| 0 <= a < b < placed.len() implies (
                #[trigger] placed[a]).0 != (#[trigger] placed[b]).0 by {
                    lemma_text_less_irreflexive(placed[a].0);
                }
                lemma_object_of_wf(placed);
                if es.len() == 1 {
                    assert(all[0].0 == es@[0].0@);
                }
            }
            Json::Object(out)
        },
        _ => v.duplicate(),
    }
}

proof fn lemma_elements_each(ts: Seq<JsonTree>, k: nat, i: int)
    requires
        k <= ts.len(),
    ensures
        canonical_elements(ts, k).len() == k,
        0 <= i < k ==> canonical_elements(ts, k)[i] == canonical(ts[i]),
    decreases k,
{
    if k > 0 {
        lemma_elements_each(ts, (k - 1) as nat, i);
    }
}

proof fn lemma_members_each(es: Members, k: nat, i: int)
    requires
        k <= es.len(),
        0 <= i < k,
    ensures
        canonical_members(es, k).contains((es[i].0, canonical(es[i].1))),
    decreases k,
{
    let before = canonical_members(es, (k - 1) as nat);
    let key = es[k - 1].0;
    let value = canonical(es[k - 1].1);
    let p = member_place(before, key) as int;
    lemma_member_place(before, key);
    let after = canonical_members(es, k);
    assert(after == before.insert(p, (key, value)));
    if i == k - 1 {
        assert(after[p] == (key, value));
    } else {
        lemma_members_each(es, (k - 1) as nat, i);
        let f = (es[i].0, canonical(es[i].1));
        let j = choose|j: int| 0 <= j < before.len() && before[j] == f;
        if j < p {
            assert(after[j] == f);
        } else {
            assert(after[j + 1] == f);
        }
    }
}

/// What stands for a value is written as that value is. Of what stands for none, because a commit
/// timestamp in it is still open, each part is written on its own: an array element by element, an
/// object member by member under the names that it has, and an open timestamp as it is.
pub proof fn canonical_form_keeps_every_part(t: JsonTree, i: int)
    requires
        tree_wf(t),
    ensures
        decoded(t) matches Ok(v) ==> canonical(t) == encoded(v),
        decoded(t) is Err ==> match t {
            JsonTree::Array(ts) => canonical(t) matches JsonTree::Array(out) && out.len() == ts.len()
                && (0 <= i < ts.len() ==> out[i] == canonical(ts[i])),
            JsonTree::Object(es) => if es.len() == 1 && es[0].0.len() > 0 && es[0].0[0] == '$' {
                canonical(t) == t
            } else {
                canonical(t) matches JsonTree::Object(out) && out.len() == es.len() && (0 <= i
                    < es.len() ==> out.contains((es[i].0, canonical(es[i].1))))
            },
            _ => canonical(t) == t,
        },
{
    if decoded(t) is Err {
        match t {
            JsonTree::Array(ts) => lemma_elements_each(ts, ts.len(), i),
            JsonTree::Object(es) => {
                if !is_token(es) {
                    lemma_members_in_order(es, es.len());
                    if 0 <= i < es.len() {
                        lemma_members_each(es, es.len(), i);
                    }
                }
            },
            _ => {},
        }
    }
}

} // verus!
