//! Applying the patch between two values to the first gives the second.

use vstd::prelude::*;
use vstd::utf8::encode_utf8;
use crate::edit::{
    child, child_index, edited, edited_at, edited_child, member_removed, member_set, with_child,
    EditTree, PatchFault,
};
use crate::json::{
    deepest_element, deepest_member, distinct_keys, has_member, lemma_array_meaning,
    lemma_array_wf, lemma_member_index, lemma_object_meaning, lemma_object_wf, meaning,
    member_index, tree_depth, tree_wf, Json, JsonTree, Members,
};
use crate::json_text::{json_of_text, readable, text_of_json};
use crate::patch::{
    apply_patch, changes, diff_to_patch, element_additions, element_changes, element_removals,
    is_patch_worth_it, lemma_op_names, member_changes, op_applied, op_read, op_tree, op_trees,
    ops_applied, patch_applied, patch_between, patch_sent, patch_tree, removals, text_member,
    PatchError, PatchOp, MIN_PATCHABLE_SIZE,
};
use crate::pointer::{
    element_path, element_path_tokens, escaped, member_path, member_path_tokens, tokens,
};
use crate::text::{begins_with, decimal, lemma_decimal_parses};

verus! {

/// What some tokens lead to.
spec fn sub_at(doc: JsonTree, ts: Seq<Seq<char>>) -> Option<JsonTree>
    decreases ts.len(),
{
    if ts.len() == 0 {
        Some(doc)
    } else {
        match child_index(doc, ts[0]) {
            Err(_) => None,
            Ok(i) => sub_at(child(doc, i), ts.skip(1)),
        }
    }
}

/// A document with another value where some tokens lead to.
spec fn put_at(doc: JsonTree, ts: Seq<Seq<char>>, v: JsonTree) -> JsonTree
    decreases ts.len(),
{
    if ts.len() == 0 {
        v
    } else {
        match child_index(doc, ts[0]) {
            Err(_) => doc,
            Ok(i) => with_child(doc, i, put_at(child(doc, i), ts.skip(1), v)),
        }
    }
}

/// The value under a key.
spec fn lookup(es: Members, key: Seq<char>) -> Option<JsonTree> {
    if has_member(es, key) {
        Some(es[member_index(es, key)].1)
    } else {
        None
    }
}

proof fn lemma_same_keys(a: Members, b: Members, key: Seq<char>)
    requires
        a.len() == b.len(),
        forall|i: int| 0 <= i < a.len() ==> (#[trigger] a[i]).0 == b[i].0,
    ensures
        member_index(a, key) == member_index(b, key),
{
    lemma_member_index(a, key);
    lemma_member_index(b, key);
    let i = member_index(a, key);
    let j = member_index(b, key);
    if i >= 0 {
        assert(a[i].0 == b[i].0);
    }
    if j >= 0 {
        assert(a[j].0 == b[j].0);
    }
}

proof fn lemma_with_child(doc: JsonTree, token: Seq<char>, c: JsonTree, d: JsonTree)
    requires
        child_index(doc, token) is Ok,
    ensures
        ({
            let i = child_index(doc, token)->Ok_0;
            &&& child_index(with_child(doc, i, c), token) == Ok::<int, PatchFault>(i)
            &&& child(with_child(doc, i, c), i) == c
            &&& with_child(with_child(doc, i, c), i, d) == with_child(doc, i, d)
            &&& with_child(doc, i, child(doc, i)) == doc
        }),
{
    let i = child_index(doc, token)->Ok_0;
    match doc {
        JsonTree::Object(es) => {
            lemma_member_index(es, token);
            let es1 = es.update(i, (es[i].0, c));
            lemma_same_keys(es1, es, token);
            assert(es1.update(i, (es1[i].0, d)) =~= es.update(i, (es[i].0, d)));
            assert(es.update(i, (es[i].0, es[i].1)) =~= es);
        },
        JsonTree::Array(ts) => {
            assert(ts.update(i, c).update(i, d) =~= ts.update(i, d));
            assert(ts.update(i, ts[i]) =~= ts);
        },
        _ => {},
    }
}

proof fn lemma_put(doc: JsonTree, ts: Seq<Seq<char>>, v: JsonTree, w: JsonTree)
    requires
        sub_at(doc, ts) is Some,
    ensures
        sub_at(put_at(doc, ts, v), ts) == Some(v),
        put_at(put_at(doc, ts, v), ts, w) == put_at(doc, ts, w),
        put_at(doc, ts, sub_at(doc, ts)->0) == doc,
    decreases ts.len(),
{
    if ts.len() > 0 {
        let i = child_index(doc, ts[0])->Ok_0;
        let inner = child(doc, i);
        lemma_put(inner, ts.skip(1), v, w);
        lemma_with_child(
            doc,
            ts[0],
            put_at(inner, ts.skip(1), v),
            put_at(inner, ts.skip(1), w),
        );
    }
}

proof fn lemma_push(doc: JsonTree, ts: Seq<Seq<char>>, t: Seq<char>, v: JsonTree)
    requires
        sub_at(doc, ts) is Some,
        child_index(sub_at(doc, ts)->0, t) is Ok,
    ensures
        ({
            let s = sub_at(doc, ts)->0;
            let i = child_index(s, t)->Ok_0;
            &&& sub_at(doc, ts.push(t)) == Some(child(s, i))
            &&& put_at(doc, ts.push(t), v) == put_at(doc, ts, with_child(s, i, v))
        }),
    decreases ts.len(),
{
    reveal_with_fuel(sub_at, 2);
    reveal_with_fuel(put_at, 2);
    let longer = ts.push(t);
    if ts.len() == 0 {
        assert(longer.skip(1) =~= Seq::empty());
    } else {
        let i = child_index(doc, ts[0])->Ok_0;
        assert(longer[0] == ts[0]);
        assert(longer.skip(1) =~= ts.skip(1).push(t));
        lemma_push(child(doc, i), ts.skip(1), t, v);
    }
}

proof fn lemma_edit_last(doc: JsonTree, ts: Seq<Seq<char>>, t: Seq<char>, e: EditTree)
    requires
        sub_at(doc, ts) is Some,
    ensures
        edited(doc, ts.push(t), e) == (match edited_child(sub_at(doc, ts)->0, t, e) {
            Ok(c) => Ok::<JsonTree, PatchFault>(put_at(doc, ts, c)),
            Err(f) => Err::<JsonTree, PatchFault>(f),
        }),
    decreases ts.len(),
{
    let longer = ts.push(t);
    if ts.len() > 0 {
        let i = child_index(doc, ts[0])->Ok_0;
        assert(longer[0] == ts[0]);
        assert(longer.skip(1) =~= ts.skip(1).push(t));
        lemma_edit_last(child(doc, i), ts.skip(1), t, e);
    }
}

proof fn lemma_replace(doc: JsonTree, ts: Seq<Seq<char>>, v: JsonTree)
    requires
        sub_at(doc, ts) is Some,
    ensures
        edited(doc, ts, EditTree::Replace(v)) == Ok::<JsonTree, PatchFault>(put_at(doc, ts, v)),
    decreases ts.len(),
{
    if ts.len() == 1 {
        assert(ts.skip(1) =~= Seq::empty());
        reveal_with_fuel(put_at, 2);
        if let JsonTree::Object(es) = doc {
            lemma_member_index(es, ts[0]);
        }
    } else if ts.len() > 1 {
        lemma_replace(child(doc, child_index(doc, ts[0])->Ok_0), ts.skip(1), v);
    }
}

proof fn lemma_ops_concat(doc: JsonTree, a: Seq<JsonTree>, b: Seq<JsonTree>)
    ensures
        ops_applied(doc, a + b) == (match ops_applied(doc, a) {
            Ok(d) => ops_applied(d, b),
            Err(f) => Err(f),
        }),
    decreases a.len(),
{
    if a.len() == 0 {
        assert(a + b =~= b);
    } else {
        assert((a + b)[0] == a[0]);
        assert((a + b).skip(1) =~= a.skip(1) + b);
        if let Ok(d) = op_applied(doc, a[0]) {
            lemma_ops_concat(d, a.skip(1), b);
        }
    }
}

/// A document after some operations.
spec fn run(doc: JsonTree, ops: Seq<PatchOp>) -> Result<JsonTree, PatchFault> {
    ops_applied(doc, op_trees(ops))
}

proof fn lemma_run_concat(doc: JsonTree, a: Seq<PatchOp>, b: Seq<PatchOp>)
    ensures
        run(doc, a + b) == (match run(doc, a) {
            Ok(d) => run(d, b),
            Err(f) => Err(f),
        }),
{
    assert(op_trees(a + b) =~= op_trees(a) + op_trees(b));
    lemma_ops_concat(doc, op_trees(a), op_trees(b));
}

proof fn lemma_op_read(op: PatchOp)
    ensures
        op_read(op_tree(op)) == Ok::<PatchOp, PatchFault>(op),
{
    lemma_op_names();
    let es = op_tree(op)->Object_0;
    lemma_member_index(es, "op"@);
    lemma_member_index(es, "path"@);
    lemma_member_index(es, "value"@);
    assert(es[0].0 == "op"@);
    assert(es[1].0 == "path"@);
    if op.edit !is Remove {
        assert(es[2].0 == "value"@);
    }
}

proof fn lemma_run_push(doc: JsonTree, a: Seq<PatchOp>, op: PatchOp)
    ensures
        run(doc, a.push(op)) == (match run(doc, a) {
            Ok(d) => edited_at(d, op.path, op.edit),
            Err(f) => Err(f),
        }),
{
    reveal_with_fuel(ops_applied, 2);
    let one = seq![op];
    assert(a.push(op) =~= a + one);
    lemma_run_concat(doc, a, one);
    lemma_op_read(op);
    assert(op_trees(one) =~= seq![op_tree(op)]);
    assert(op_trees(one).skip(1) =~= Seq::empty());
}

proof fn lemma_lookup_removed(es: Members, i: int)
    requires
        distinct_keys(es),
        0 <= i < es.len(),
    ensures
        distinct_keys(member_removed(es, i)),
        forall|x: Seq<char>|
            #[trigger] lookup(member_removed(es, i), x) == if x == es[i].0 {
                None
            } else {
                lookup(es, x)
            },
{
    let out = member_removed(es, i);
    assert forall|x: Seq<char>| #[trigger] lookup(out, x) == if x == es[i].0 {
        None
    } else {
        lookup(es, x)
    } by {
        lemma_member_index(out, x);
        lemma_member_index(es, x);
        let j = member_index(out, x);
        let k = member_index(es, x);
        if j >= 0 {
            assert(out[j] == if j == i {
                es.last()
            } else {
                es[j]
            });
        }
        if k >= 0 && x != es[i].0 {
            assert(es[k].0 == x);
            if k == es.len() - 1 {
                assert(out[i] == es[k]);
            } else {
                assert(out[k] == es[k]);
            }
        }
    }
}

proof fn lemma_lookup_set(es: Members, key: Seq<char>, v: JsonTree)
    requires
        distinct_keys(es),
    ensures
        distinct_keys(member_set(es, key, v)),
        forall|x: Seq<char>|
            #[trigger] lookup(member_set(es, key, v), x) == if x == key {
                Some(v)
            } else {
                lookup(es, x)
            },
{
    lemma_member_index(es, key);
    let out = member_set(es, key, v);
    assert forall|x: Seq<char>| #[trigger] lookup(out, x) == if x == key {
        Some(v)
    } else {
        lookup(es, x)
    } by {
        lemma_member_index(out, x);
        lemma_member_index(es, x);
        let j = member_index(out, x);
        let k = member_index(es, x);
        if x == key {
            if has_member(es, key) {
                assert(out[member_index(es, key)].0 == key);
            } else {
                assert(out[es.len() as int].0 == key);
            }
        }
        if k >= 0 {
            assert(out[k].0 == es[k].0);
        }
        if j >= 0 && j < es.len() {
            assert(es[j].0 == out[j].0);
        }
    }
}

proof fn removals_apply(
    doc: JsonTree,
    path: Seq<char>,
    ts: Seq<Seq<char>>,
    o: Members,
    n: Members,
    k: nat,
) -> (es: Members)
    requires
        tokens(path) == Some(ts),
        sub_at(doc, ts) == Some(JsonTree::Object(o)),
        distinct_keys(o),
        k <= o.len(),
    ensures
        run(doc, removals(path, o, n, k)) == Ok::<JsonTree, PatchFault>(
            put_at(doc, ts, JsonTree::Object(es)),
        ),
        distinct_keys(es),
        forall|x: Seq<char>|
            #[trigger] lookup(es, x) == if has_member(n, x) || member_index(o, x) >= k {
                lookup(o, x)
            } else {
                None
            },
    decreases k,
{
    if k == 0 {
        lemma_put(doc, ts, doc, doc);
        assert(op_trees(removals(path, o, n, k)) =~= Seq::empty());
        assert forall|x: Seq<char>| #[trigger]
            lookup(o, x) == if has_member(n, x) || member_index(o, x) >= k {
            lookup(o, x)
        } else {
            None
        } by {}
        o
    } else {
        let before = removals_apply(doc, path, ts, o, n, (k - 1) as nat);
        let key = o[k - 1].0;
        lemma_member_index(o, key);
        assert(member_index(o, key) == k - 1);
        assert forall|x: Seq<char>| member_index(o, x) == k - 1 implies x == key by {
            lemma_member_index(o, x);
        }
        if has_member(n, key) {
            before
        } else {
            let op = PatchOp { path: member_path(path, key), edit: EditTree::Remove };
            let mid = JsonTree::Object(before);
            let d = put_at(doc, ts, mid);
            assert(lookup(before, key) == lookup(o, key));
            lemma_member_index(before, key);
            let i = member_index(before, key);
            let after = member_removed(before, i);
            lemma_lookup_removed(before, i);
            lemma_run_push(doc, removals(path, o, n, (k - 1) as nat), op);
            member_path_tokens(path, ts, key);
            lemma_put(doc, ts, mid, JsonTree::Object(after));
            lemma_edit_last(d, ts, key, EditTree::Remove);
            after
        }
    }
}

proof fn member_changes_apply(
    doc: JsonTree,
    path: Seq<char>,
    ts: Seq<Seq<char>>,
    o: Members,
    n: Members,
    start: Members,
    k: nat,
) -> (es: Members)
    requires
        tokens(path) == Some(ts),
        sub_at(doc, ts) == Some(JsonTree::Object(start)),
        tree_wf(JsonTree::Object(o)),
        tree_wf(JsonTree::Object(n)),
        distinct_keys(start),
        forall|x: Seq<char>|
            #[trigger] lookup(start, x) == if has_member(n, x) {
                lookup(o, x)
            } else {
                None
            },
        k <= n.len(),
    ensures
        run(doc, member_changes(path, o, n, k)) == Ok::<JsonTree, PatchFault>(
            put_at(doc, ts, JsonTree::Object(es)),
        ),
        distinct_keys(es),
        forall|x: Seq<char>|
            if 0 <= member_index(n, x) < k {
                #[trigger] lookup(es, x) is Some && meaning(lookup(es, x)->0) == meaning(
                    n[member_index(n, x)].1,
                )
            } else {
                lookup(es, x) == lookup(start, x)
            },
    decreases n, k,
{
    if k == 0 {
        lemma_put(doc, ts, doc, doc);
        assert(op_trees(member_changes(path, o, n, k)) =~= Seq::empty());
        start
    } else {
        let before = member_changes_apply(doc, path, ts, o, n, start, (k - 1) as nat);
        let done = member_changes(path, o, n, (k - 1) as nat);
        let key = n[k - 1].0;
        let new_v = n[k - 1].1;
        let at = member_path(path, key);
        lemma_member_index(n, key);
        assert(member_index(n, key) == k - 1);
        assert forall|x: Seq<char>| member_index(n, x) == k - 1 implies x == key by {
            lemma_member_index(n, x);
        }
        lemma_member_index(o, key);
        lemma_member_index(before, key);
        assert(lookup(before, key) == lookup(start, key));
        assert(lookup(start, key) == lookup(o, key));
        let mid = JsonTree::Object(before);
        let d = put_at(doc, ts, mid);
        lemma_put(doc, ts, mid, mid);
        member_path_tokens(path, ts, key);
        if has_member(o, key) {
            let old_v = o[member_index(o, key)].1;
            lemma_object_wf(o, member_index(o, key));
            lemma_object_wf(n, k - 1);
            lemma_push(d, ts, key, old_v);
            let s = changes_apply(d, at, ts.push(key), old_v, new_v);
            lemma_push(d, ts, key, s);
            let after = member_set(before, key, s);
            assert(with_child(mid, member_index(before, key), s) == JsonTree::Object(after));
            lemma_lookup_set(before, key, s);
            lemma_put(doc, ts, mid, JsonTree::Object(after));
            lemma_run_concat(doc, done, changes(at, old_v, new_v));
            after
        } else {
            let op = PatchOp { path: at, edit: EditTree::Add(new_v) };
            let after = member_set(before, key, new_v);
            lemma_lookup_set(before, key, new_v);
            lemma_run_push(doc, done, op);
            lemma_put(doc, ts, mid, JsonTree::Object(after));
            lemma_edit_last(d, ts, key, EditTree::Add(new_v));
            after
        }
    }
}

proof fn element_changes_apply(
    doc: JsonTree,
    path: Seq<char>,
    ts: Seq<Seq<char>>,
    o: Seq<JsonTree>,
    n: Seq<JsonTree>,
    k: nat,
) -> (vs: Seq<JsonTree>)
    requires
        tokens(path) == Some(ts),
        sub_at(doc, ts) == Some(JsonTree::Array(o)),
        tree_wf(JsonTree::Array(o)),
        tree_wf(JsonTree::Array(n)),
        k <= n.len(),
        k <= o.len(),
    ensures
        run(doc, element_changes(path, o, n, k)) == Ok::<JsonTree, PatchFault>(
            put_at(doc, ts, JsonTree::Array(vs)),
        ),
        vs.len() == o.len(),
        forall|i: int| 0 <= i < k ==> meaning(#[trigger] vs[i]) == meaning(n[i]),
        forall|i: int| k <= i < o.len() ==> #[trigger] vs[i] == o[i],
    decreases n, k,
{
    if k == 0 {
        lemma_put(doc, ts, doc, doc);
        assert(op_trees(element_changes(path, o, n, k)) =~= Seq::empty());
        o
    } else {
        let before = element_changes_apply(doc, path, ts, o, n, (k - 1) as nat);
        let i = k - 1;
        let at = element_path(path, i as nat);
        let key = decimal(i as nat);
        let mid = JsonTree::Array(before);
        let d = put_at(doc, ts, mid);
        lemma_put(doc, ts, mid, mid);
        element_path_tokens(path, ts, i as nat);
        lemma_decimal_parses(i as nat, usize::MAX as nat);
        lemma_array_wf(o, i);
        lemma_array_wf(n, i);
        lemma_push(d, ts, key, o[i]);
        let s = changes_apply(d, at, ts.push(key), o[i], n[i]);
        lemma_push(d, ts, key, s);
        let after = before.update(i, s);
        lemma_put(doc, ts, mid, JsonTree::Array(after));
        lemma_run_concat(
            doc,
            element_changes(path, o, n, i as nat),
            changes(at, o[i], n[i]),
        );
        after
    }
}

proof fn element_additions_apply(
    doc: JsonTree,
    path: Seq<char>,
    ts: Seq<Seq<char>>,
    start: Seq<JsonTree>,
    n: Seq<JsonTree>,
    to: nat,
)
    requires
        tokens(path) == Some(ts),
        sub_at(doc, ts) == Some(JsonTree::Array(start)),
        start.len() <= to <= n.len() <= usize::MAX,
    ensures
        run(doc, element_additions(path, n, start.len(), to)) == Ok::<JsonTree, PatchFault>(
            put_at(doc, ts, JsonTree::Array(start + n.subrange(start.len() as int, to as int))),
        ),
    decreases to,
{
    let from = start.len();
    if to == from {
        lemma_put(doc, ts, doc, doc);
        assert(start + n.subrange(from as int, to as int) =~= start);
        assert(op_trees(element_additions(path, n, from, to)) =~= Seq::empty());
    } else {
        let i = (to - 1) as nat;
        element_additions_apply(doc, path, ts, start, n, i);
        let before = start + n.subrange(from as int, i as int);
        let after = start + n.subrange(from as int, to as int);
        let op = PatchOp { path: element_path(path, i), edit: EditTree::Add(n[i as int]) };
        assert(element_additions(path, n, from, to) =~= element_additions(path, n, from, i).push(
            op,
        ));
        lemma_run_push(doc, element_additions(path, n, from, i), op);
        element_path_tokens(path, ts, i);
        lemma_decimal_parses(i, usize::MAX as nat);
        assert(before.insert(i as int, n[i as int]) =~= after);
        let d = put_at(doc, ts, JsonTree::Array(before));
        lemma_put(doc, ts, JsonTree::Array(before), JsonTree::Array(after));
        lemma_edit_last(d, ts, decimal(i), op.edit);
    }
}

proof fn element_removals_apply(
    doc: JsonTree,
    path: Seq<char>,
    ts: Seq<Seq<char>>,
    start: Seq<JsonTree>,
    to: nat,
)
    requires
        tokens(path) == Some(ts),
        sub_at(doc, ts) == Some(JsonTree::Array(start)),
        to <= start.len() <= usize::MAX,
    ensures
        run(doc, element_removals(path, start.len(), to)) == Ok::<JsonTree, PatchFault>(
            put_at(doc, ts, JsonTree::Array(start.take(to as int))),
        ),
    decreases start.len() - to,
{
    let from = start.len();
    if to == from {
        lemma_put(doc, ts, doc, doc);
        assert(start.take(to as int) =~= start);
        assert(op_trees(element_removals(path, from, to)) =~= Seq::empty());
    } else {
        element_removals_apply(doc, path, ts, start, to + 1);
        let before = start.take(to as int + 1);
        let after = start.take(to as int);
        let op = PatchOp { path: element_path(path, to), edit: EditTree::Remove };
        assert(element_removals(path, from, to) =~= element_removals(path, from, to + 1).push(op));
        lemma_run_push(doc, element_removals(path, from, to + 1), op);
        element_path_tokens(path, ts, to);
        lemma_decimal_parses(to, usize::MAX as nat);
        assert(before.remove(to as int) =~= after);
        let d = put_at(doc, ts, JsonTree::Array(before));
        lemma_put(doc, ts, JsonTree::Array(before), JsonTree::Array(after));
        lemma_edit_last(d, ts, decimal(to), op.edit);
    }
}

proof fn array_changes_apply(
    doc: JsonTree,
    path: Seq<char>,
    ts: Seq<Seq<char>>,
    o: Seq<JsonTree>,
    n: Seq<JsonTree>,
) -> (vs: Seq<JsonTree>)
    requires
        tokens(path) == Some(ts),
        sub_at(doc, ts) == Some(JsonTree::Array(o)),
        tree_wf(JsonTree::Array(o)),
        tree_wf(JsonTree::Array(n)),
        meaning(JsonTree::Array(o)) != meaning(JsonTree::Array(n)),
    ensures
        run(doc, changes(path, JsonTree::Array(o), JsonTree::Array(n))) == Ok::<
            JsonTree,
            PatchFault,
        >(put_at(doc, ts, JsonTree::Array(vs))),
        meaning(JsonTree::Array(vs)) == meaning(JsonTree::Array(n)),
    decreases n, n.len() + 1,
{
    let common = if o.len() <= n.len() {
        o.len()
    } else {
        n.len()
    };
    let changed = element_changes(path, o, n, common);
    let added = element_additions(path, n, common, n.len());
    let removed = element_removals(path, o.len(), common);
    let mid = element_changes_apply(doc, path, ts, o, n, common);
    let d = put_at(doc, ts, JsonTree::Array(mid));
    lemma_put(doc, ts, JsonTree::Array(mid), JsonTree::Array(mid));
    lemma_run_concat(doc, changed + added, removed);
    lemma_run_concat(doc, changed, added);
    let vs = if o.len() <= n.len() {
        let vs = mid + n.subrange(common as int, n.len() as int);
        element_additions_apply(d, path, ts, mid, n, n.len());
        assert(removed =~= Seq::empty());
        assert(op_trees(removed) =~= Seq::empty());
        lemma_put(doc, ts, JsonTree::Array(mid), JsonTree::Array(vs));
        vs
    } else {
        let vs = mid.take(common as int);
        assert(added =~= Seq::empty());
        assert(op_trees(added) =~= Seq::empty());
        element_removals_apply(d, path, ts, mid, common);
        lemma_put(doc, ts, JsonTree::Array(mid), JsonTree::Array(vs));
        vs
    };
    lemma_array_meaning(vs);
    lemma_array_meaning(n);
    let a = meaning(JsonTree::Array(vs))->Array_0;
    let b = meaning(JsonTree::Array(n))->Array_0;
    assert forall|i: int| 0 <= i < n.len() implies #[trigger] a[i] == b[i] by {
        assert(meaning(vs[i]) == meaning(n[i]));
    }
    assert(a =~= b);
    vs
}

proof fn object_changes_apply(
    doc: JsonTree,
    path: Seq<char>,
    ts: Seq<Seq<char>>,
    o: Members,
    n: Members,
) -> (es: Members)
    requires
        tokens(path) == Some(ts),
        sub_at(doc, ts) == Some(JsonTree::Object(o)),
        tree_wf(JsonTree::Object(o)),
        tree_wf(JsonTree::Object(n)),
        meaning(JsonTree::Object(o)) != meaning(JsonTree::Object(n)),
    ensures
        run(doc, changes(path, JsonTree::Object(o), JsonTree::Object(n))) == Ok::<
            JsonTree,
            PatchFault,
        >(put_at(doc, ts, JsonTree::Object(es))),
        meaning(JsonTree::Object(es)) == meaning(JsonTree::Object(n)),
    decreases n, n.len() + 1,
{
    let mid = removals_apply(doc, path, ts, o, n, o.len());
    let d = put_at(doc, ts, JsonTree::Object(mid));
    lemma_put(doc, ts, JsonTree::Object(mid), JsonTree::Object(mid));
    assert forall|x: Seq<char>| #[trigger] lookup(mid, x) == if has_member(n, x) {
        lookup(o, x)
    } else {
        None
    } by {
        lemma_member_index(o, x);
    }
    let es = member_changes_apply(d, path, ts, o, n, mid, n.len());
    lemma_put(doc, ts, JsonTree::Object(mid), JsonTree::Object(es));
    lemma_run_concat(doc, removals(path, o, n, o.len()), member_changes(path, o, n, n.len()));
    lemma_object_meaning(es);
    lemma_object_meaning(n);
    let a = meaning(JsonTree::Object(es))->Object_0;
    let b = meaning(JsonTree::Object(n))->Object_0;
    assert forall|x: Seq<char>| #[trigger] a.dom().contains(x) == b.dom().contains(x) by {
        lemma_member_index(n, x);
        assert(lookup(es, x) is Some == has_member(es, x));
        assert(lookup(mid, x) is Some ==> has_member(n, x));
    }
    assert forall|x: Seq<char>| a.dom().contains(x) implies #[trigger] a[x] == b[x] by {
        assert(b.dom().contains(x));
        lemma_member_index(n, x);
        assert(meaning(lookup(es, x)->0) == meaning(n[member_index(n, x)].1));
    }
    assert(a =~= b);
    es
}

proof fn changes_apply(
    doc: JsonTree,
    path: Seq<char>,
    ts: Seq<Seq<char>>,
    old_t: JsonTree,
    new_t: JsonTree,
) -> (s: JsonTree)
    requires
        tokens(path) == Some(ts),
        sub_at(doc, ts) == Some(old_t),
        tree_wf(old_t),
        tree_wf(new_t),
    ensures
        run(doc, changes(path, old_t, new_t)) == Ok::<JsonTree, PatchFault>(put_at(doc, ts, s)),
        meaning(s) == meaning(new_t),
    decreases new_t, 0nat,
{
    if meaning(old_t) == meaning(new_t) {
        lemma_put(doc, ts, doc, doc);
        assert(op_trees(changes(path, old_t, new_t)) =~= Seq::empty());
        old_t
    } else {
        match (old_t, new_t) {
            (JsonTree::Object(o), JsonTree::Object(n)) => {
                let es = object_changes_apply(doc, path, ts, o, n);
                JsonTree::Object(es)
            },
            (JsonTree::Array(o), JsonTree::Array(n)) => {
                let vs = array_changes_apply(doc, path, ts, o, n);
                JsonTree::Array(vs)
            },
            _ => {
                let op = PatchOp { path, edit: EditTree::Replace(new_t) };
                assert(changes(path, old_t, new_t) =~= Seq::<PatchOp>::empty().push(op));
                lemma_run_push(doc, Seq::empty(), op);
                assert(op_trees(Seq::empty()) =~= Seq::empty());
                lemma_replace(doc, ts, new_t);
                new_t
            },
        }
    }
}

/// Applying the patch between two values to the first gives a value that means the second.
pub proof fn patch_round_trip(old_t: JsonTree, new_t: JsonTree)
    requires
        tree_wf(old_t),
        tree_wf(new_t),
    ensures
        patch_applied(old_t, patch_tree(old_t, new_t)) matches Ok(d) && meaning(d) == meaning(
            new_t,
        ),
{
    let root = Seq::<char>::empty();
    let none = Seq::<Seq<char>>::empty();
    let s = changes_apply(old_t, root, none, old_t, new_t);
}

proof fn lemma_deepest_element(ts: Seq<JsonTree>, k: nat, limit: nat)
    requires
        k <= ts.len(),
    ensures
        forall|i: int| 0 <= i < k ==> tree_depth(#[trigger] ts[i]) <= deepest_element(ts, k),
        (forall|i: int| 0 <= i < k ==> tree_depth(#[trigger] ts[i]) <= limit) ==> deepest_element(
            ts,
            k,
        ) <= limit,
    decreases k,
{
    if k > 0 {
        lemma_deepest_element(ts, (k - 1) as nat, limit);
        assert(ts[k - 1] == ts[k - 1]);
    }
}

proof fn lemma_deepest_member(es: Members, k: nat, limit: nat)
    requires
        k <= es.len(),
    ensures
        forall|i: int| 0 <= i < k ==> tree_depth((#[trigger] es[i]).1) <= deepest_member(es, k),
        (forall|i: int| 0 <= i < k ==> tree_depth((#[trigger] es[i]).1) <= limit)
            ==> deepest_member(es, k) <= limit,
    decreases k,
{
    if k > 0 {
        lemma_deepest_member(es, (k - 1) as nat, limit);
        assert(es[k - 1] == es[k - 1]);
    }
}

/// Two values that mean the same nest equally deep; here, the first no deeper than the second.
proof fn lemma_no_deeper(a: JsonTree, b: JsonTree)
    requires
        tree_wf(a),
        tree_wf(b),
        meaning(a) == meaning(b),
    ensures
        tree_depth(a) <= tree_depth(b),
    decreases a,
{
    match (a, b) {
        (JsonTree::Array(x), JsonTree::Array(y)) => {
            lemma_array_meaning(x);
            lemma_array_meaning(y);
            let deepest = deepest_element(y, y.len());
            lemma_deepest_element(y, y.len(), 0);
            assert forall|i: int| 0 <= i < x.len() implies tree_depth(#[trigger] x[i])
                <= deepest by {
                lemma_array_wf(x, i);
                lemma_array_wf(y, i);
                assert(meaning(a)->Array_0[i] == meaning(x[i]));
                assert(meaning(b)->Array_0[i] == meaning(y[i]));
                assert(decreases_to!(a => a->Array_0));
                assert(decreases_to!(a->Array_0 => a->Array_0[i]));
                lemma_no_deeper(x[i], y[i]);
            }
            lemma_deepest_element(x, x.len(), deepest);
        },
        (JsonTree::Object(x), JsonTree::Object(y)) => {
            lemma_object_meaning(x);
            lemma_object_meaning(y);
            let deepest = deepest_member(y, y.len());
            lemma_deepest_member(y, y.len(), 0);
            assert forall|i: int| 0 <= i < x.len() implies tree_depth((#[trigger] x[i]).1)
                <= deepest by {
                let key = x[i].0;
                lemma_member_index(x, key);
                lemma_member_index(y, key);
                let at = member_index(x, key);
                if at < i {
                    assert(x[at].0 != x[i].0);
                }
                assert(meaning(a)->Object_0.dom().contains(key));
                assert(meaning(b)->Object_0.dom().contains(key));
                let j = member_index(y, key);
                lemma_object_wf(x, i);
                lemma_object_wf(y, j);
                assert(meaning(a)->Object_0[key] == meaning(x[i].1));
                assert(meaning(b)->Object_0[key] == meaning(y[j].1));
                assert(decreases_to!(a => a->Object_0));
                assert(decreases_to!(a->Object_0 => a->Object_0[i]));
                assert(decreases_to!(a->Object_0[i] => a->Object_0[i].1));
                lemma_no_deeper(x[i].1, y[j].1);
            }
            lemma_deepest_member(x, x.len(), deepest);
        },
        _ => {},
    }
}

/// Two values that mean the same nest equally deep.
pub proof fn meaning_fixes_depth(a: JsonTree, b: JsonTree)
    requires
        tree_wf(a),
        tree_wf(b),
        meaning(a) == meaning(b),
    ensures
        tree_depth(a) == tree_depth(b),
{
    lemma_no_deeper(a, b);
    lemma_no_deeper(b, a);
}

/// The patch between two values is empty exactly if they mean the same.
pub proof fn empty_patch_between_equals(old_t: JsonTree, new_t: JsonTree)
    requires
        tree_wf(old_t),
        tree_wf(new_t),
    ensures
        patch_tree(old_t, new_t)->Array_0.len() == 0 <==> meaning(old_t) == meaning(new_t),
{
    patch_round_trip(old_t, new_t);
}

/// Every operation of a patch between two values is an addition, a replacement or a removal, and
/// reads as the operation that was meant.
pub proof fn patches_hold_known_operations(old_t: JsonTree, new_t: JsonTree, i: int)
    requires
        0 <= i < patch_tree(old_t, new_t)->Array_0.len(),
    ensures
        ({
            let op = patch_tree(old_t, new_t)->Array_0[i];
            &&& text_member(op, "op"@) == Some("add"@) || text_member(op, "op"@) == Some("replace"@)
                || text_member(op, "op"@) == Some("remove"@)
            &&& op_read(op) == Ok::<PatchOp, PatchFault>(
                changes(Seq::empty(), old_t, new_t)[i],
            )
        }),
{
    let ops = changes(Seq::empty(), old_t, new_t);
    assert(patch_tree(old_t, new_t)->Array_0[i] == op_tree(ops[i]));
    lemma_op_read(ops[i]);
}

/// A client that holds the old value and is sent a patch arrives at what the new value means.
pub proof fn sent_patch_restores(old_text: Seq<char>, new_text: Seq<char>)
    requires
        patch_sent(old_text, new_text) is Some,
        readable(old_text),
        readable(new_text),
    ensures
        patch_applied(
            json_of_text(old_text)->Ok_0,
            patch_sent(old_text, new_text)->0,
        ) matches Ok(d) && meaning(d) == meaning(json_of_text(new_text)->Ok_0),
{
    patch_round_trip(json_of_text(old_text)->Ok_0, json_of_text(new_text)->Ok_0);
}

/// A patch is never sent between two texts that mean the same.
pub proof fn no_patch_between_equals(old_text: Seq<char>, new_text: Seq<char>)
    requires
        json_of_text(old_text) is Ok,
        json_of_text(new_text) is Ok,
        meaning(json_of_text(old_text)->Ok_0) == meaning(json_of_text(new_text)->Ok_0),
    ensures
        patch_sent(old_text, new_text) is None,
{
}

/// A patch that is sent is smaller than four fifths of the value it stands for, and that value is
/// no smaller than the least size worth patching.
pub proof fn sent_patch_is_small(old_text: Seq<char>, new_text: Seq<char>)
    requires
        patch_sent(old_text, new_text) is Some,
    ensures
        5 * encode_utf8(text_of_json(patch_sent(old_text, new_text)->0)).len() < 4 * encode_utf8(
            new_text,
        ).len(),
        encode_utf8(new_text).len() >= MIN_PATCHABLE_SIZE,
{
}

/// An operation is read exactly where it is an object with a known operation under `op`, a text
/// under `path`, and, to add or to replace, a value under `value`; and what is read is what it says.
/// Any other member makes no difference.
pub proof fn operations_are_read(es: Members, name: Seq<char>, path: Seq<char>)
    requires
        has_member(es, "op"@) && es[member_index(es, "op"@)].1 == JsonTree::Text(name),
        has_member(es, "path"@) && es[member_index(es, "path"@)].1 == JsonTree::Text(path),
    ensures
        name == "remove"@ ==> op_read(JsonTree::Object(es)) == Ok::<PatchOp, PatchFault>(
            PatchOp { path, edit: EditTree::Remove },
        ),
        name == "add"@ && has_member(es, "value"@) ==> op_read(JsonTree::Object(es)) == Ok::<
            PatchOp,
            PatchFault,
        >(PatchOp { path, edit: EditTree::Add(es[member_index(es, "value"@)].1) }),
        name == "replace"@ && has_member(es, "value"@) ==> op_read(JsonTree::Object(es)) == Ok::<
            PatchOp,
            PatchFault,
        >(PatchOp { path, edit: EditTree::Replace(es[member_index(es, "value"@)].1) }),
        (name == "add"@ || name == "replace"@) && !has_member(es, "value"@) ==> op_read(
            JsonTree::Object(es),
        ) == Err::<PatchOp, PatchFault>(PatchFault::MissingValue),
        name != "add"@ && name != "replace"@ && name != "remove"@ ==> op_read(JsonTree::Object(es))
            == Err::<PatchOp, PatchFault>(PatchFault::UnsupportedOp),
{
    lemma_op_names();
}

/// An operation without a text under `op` is said to lack it, whatever else it holds, and then one
/// without a text under `path`.
pub proof fn incomplete_operations_are_refused(t: JsonTree)
    ensures
        !(t is Object) ==> op_read(t) == Err::<PatchOp, PatchFault>(PatchFault::MissingOp),
        t matches JsonTree::Object(es) ==> (has_member(es, "op"@) && es[member_index(es, "op"@)].1
            is Text) && !(has_member(es, "path"@) && es[member_index(es, "path"@)].1 is Text)
            ==> op_read(t) == Err::<PatchOp, PatchFault>(PatchFault::MissingPath),
        t matches JsonTree::Object(es) ==> !(has_member(es, "op"@) && es[member_index(
            es,
            "op"@,
        )].1 is Text) ==> op_read(t) == Err::<PatchOp, PatchFault>(PatchFault::MissingOp),
{
}

/// A patch is applied operation by operation, each to what the ones before it left, and the first
/// one that does not fit ends it. A patch without operations changes nothing.
pub proof fn operations_apply_in_order(doc: JsonTree, first: Seq<JsonTree>, rest: Seq<JsonTree>)
    ensures
        ops_applied(doc, first + rest) == (match ops_applied(doc, first) {
            Err(f) => Err::<JsonTree, PatchFault>(f),
            Ok(d) => ops_applied(d, rest),
        }),
        patch_applied(doc, JsonTree::Array(Seq::empty())) == Ok::<JsonTree, PatchFault>(doc),
{
    lemma_ops_concat(doc, first, rest);
}

/// A single operation does to the document what it says, at the place that it names.
pub proof fn single_operations_edit(doc: JsonTree, op: PatchOp)
    ensures
        op_applied(doc, op_tree(op)) == edited_at(doc, op.path, op.edit),
        patch_applied(doc, JsonTree::Array(seq![op_tree(op)])) == edited_at(doc, op.path, op.edit),
{
    lemma_op_read(op);
    let ops = seq![op_tree(op)];
    assert(ops.skip(1) =~= Seq::empty());
    if let Ok(d) = op_applied(doc, op_tree(op)) {
        assert(ops_applied(d, ops.skip(1)) == Ok::<JsonTree, PatchFault>(d));
    }
}

/// What is no array is no patch, to any document.
pub proof fn patches_are_arrays(doc: JsonTree, patch: JsonTree)
    requires
        !(patch is Array),
    ensures
        patch_applied(doc, patch) == Err::<JsonTree, PatchFault>(PatchFault::NotAnArray),
{
}

/// A patch is sent wherever it is worth it: both texts are JSON and differ in what they say, the new
/// one has at least 1024 bytes, and the patch takes less than four fifths of them. What is sent is
/// the patch between the two.
pub proof fn worthwhile_patches_are_sent(old_text: Seq<char>, new_text: Seq<char>)
    requires
        json_of_text(old_text) is Ok,
        json_of_text(new_text) is Ok,
        tree_wf(json_of_text(old_text)->Ok_0),
        tree_wf(json_of_text(new_text)->Ok_0),
    ensures
        ({
            let p = patch_tree(json_of_text(old_text)->Ok_0, json_of_text(new_text)->Ok_0);
            let size = encode_utf8(text_of_json(p)).len();
            let whole = encode_utf8(new_text).len();
            &&& meaning(json_of_text(old_text)->Ok_0) != meaning(json_of_text(new_text)->Ok_0)
                && whole >= 1024 && size * 5 < whole * 4 <==> patch_sent(old_text, new_text) == Some(
                p,
            )
            &&& patch_sent(old_text, new_text) is Some ==> patch_sent(old_text, new_text) == Some(p)
        }),
{
    let o = json_of_text(old_text)->Ok_0;
    let n = json_of_text(new_text)->Ok_0;
    empty_patch_between_equals(o, n);
}

/// No patch is sent between texts of which one is no JSON.
pub proof fn unreadable_texts_get_no_patch(old_text: Seq<char>, new_text: Seq<char>)
    requires
        json_of_text(old_text) is Err || json_of_text(new_text) is Err,
    ensures
        patch_sent(old_text, new_text) is None,
        patch_between(old_text, new_text) is None,
{
}

/// Whether a member differs between two objects: one of them lacks it, or it means something else.
pub open spec fn member_differs(o: Members, n: Members, key: Seq<char>) -> bool {
    has_member(o, key) != has_member(n, key) || (has_member(o, key) && meaning(
        o[member_index(o, key)].1,
    ) != meaning(n[member_index(n, key)].1))
}

/// Whether a place lies in a member that differs between two objects.
pub open spec fn in_changed_member(path: Seq<char>, o: Members, n: Members, at: Seq<char>) -> bool {
    exists|key: Seq<char>| #[trigger]
        member_differs(o, n, key) && begins_with(at, member_path(path, key))
}

/// Whether a place lies in an element that differs between two arrays.
pub open spec fn in_changed_element(
    path: Seq<char>,
    o: Seq<JsonTree>,
    n: Seq<JsonTree>,
    at: Seq<char>,
) -> bool {
    exists|i: nat|
        begins_with(at, #[trigger] element_path(path, i)) && (i >= o.len() || i >= n.len()
            || meaning(o[i as int]) != meaning(n[i as int]))
}

proof fn lemma_begins_below(at: Seq<char>, path: Seq<char>, tail: Seq<char>)
    requires
        begins_with(at, path.push('/') + tail),
    ensures
        begins_with(at, path),
        at.len() > path.len(),
{
    let longer = path.push('/') + tail;
    assert(at.take(path.len() as int) =~= longer.take(path.len() as int)) by {
        assert(at.take(longer.len() as int) == longer);
        assert forall|i: int| 0 <= i < path.len() implies at[i] == longer[i] by {
            assert(at.take(longer.len() as int)[i] == at[i]);
        }
    }
    assert(longer.take(path.len() as int) =~= path);
}

proof fn lemma_begins_with_itself(path: Seq<char>)
    ensures
        begins_with(path, path),
{
    assert(path.take(path.len() as int) =~= path);
}

proof fn lemma_removals_touch(path: Seq<char>, o: Members, n: Members, k: nat, i: int)
    requires
        k <= o.len(),
        0 <= i < removals(path, o, n, k).len(),
    ensures
        in_changed_member(path, o, n, removals(path, o, n, k)[i].path),
    decreases k,
{
    let key = o[k - 1].0;
    let before = removals(path, o, n, (k - 1) as nat);
    if i < before.len() {
        lemma_removals_touch(path, o, n, (k - 1) as nat, i);
    } else {
        lemma_member_index(o, key);
        lemma_begins_with_itself(member_path(path, key));
        assert(member_differs(o, n, key));
    }
}

proof fn lemma_members_touch(path: Seq<char>, o: Members, n: Members, k: nat, i: int)
    requires
        tree_wf(JsonTree::Object(n)),
        k <= n.len(),
        0 <= i < member_changes(path, o, n, k).len(),
    ensures
        in_changed_member(path, o, n, member_changes(path, o, n, k)[i].path),
    decreases n, k,
{
    let key = n[k - 1].0;
    let at = member_path(path, key);
    let before = member_changes(path, o, n, (k - 1) as nat);
    lemma_member_index(n, key);
    lemma_member_index(o, key);
    assert(distinct_keys(n));
    assert(member_index(n, key) == k - 1);
    lemma_object_wf(n, k - 1);
    if i < before.len() {
        lemma_members_touch(path, o, n, (k - 1) as nat, i);
    } else if has_member(o, key) {
        let old_v = o[member_index(o, key)].1;
        let inner = changes(at, old_v, n[k - 1].1);
        lemma_changes_below(at, old_v, n[k - 1].1, i - before.len());
        assert(member_changes(path, o, n, k)[i] == inner[i - before.len()]);
        assert(member_differs(o, n, key));
    } else {
        lemma_begins_with_itself(at);
        assert(member_differs(o, n, key));
    }
}

proof fn lemma_elements_touch(
    path: Seq<char>,
    o: Seq<JsonTree>,
    n: Seq<JsonTree>,
    k: nat,
    i: int,
)
    requires
        tree_wf(JsonTree::Array(n)),
        k <= n.len(),
        k <= o.len(),
        0 <= i < element_changes(path, o, n, k).len(),
    ensures
        in_changed_element(path, o, n, element_changes(path, o, n, k)[i].path),
    decreases n, k,
{
    let before = element_changes(path, o, n, (k - 1) as nat);
    if i < before.len() {
        lemma_elements_touch(path, o, n, (k - 1) as nat, i);
    } else {
        let at = element_path(path, (k - 1) as nat);
        lemma_array_wf(n, k - 1);
        lemma_changes_below(at, o[k - 1], n[k - 1], i - before.len());
        assert(element_changes(path, o, n, k)[i] == changes(at, o[k - 1], n[k - 1])[i
            - before.len()]);
    }
}

proof fn lemma_array_touch(path: Seq<char>, o: Seq<JsonTree>, n: Seq<JsonTree>, i: int)
    requires
        tree_wf(JsonTree::Array(n)),
        0 <= i < changes(path, JsonTree::Array(o), JsonTree::Array(n)).len(),
    ensures
        in_changed_element(
            path,
            o,
            n,
            changes(path, JsonTree::Array(o), JsonTree::Array(n))[i].path,
        ),
    decreases n, n.len() + 1,
{
    let common = if o.len() <= n.len() {
        o.len()
    } else {
        n.len()
    };
    let first = element_changes(path, o, n, common);
    let added = element_additions(path, n, common, n.len());
    let removed = element_removals(path, o.len(), common);
    let all = changes(path, JsonTree::Array(o), JsonTree::Array(n));
    if i < first.len() {
        lemma_elements_touch(path, o, n, common, i);
        assert(all[i] == first[i]);
    } else if i < first.len() + added.len() {
        let j = i - first.len();
        assert(all[i] == added[j]);
        lemma_begins_with_itself(element_path(path, (common + j) as nat));
    } else {
        let j = i - first.len() - added.len();
        assert(all[i] == removed[j]);
        lemma_begins_with_itself(element_path(path, (o.len() - 1 - j) as nat));
    }
}

proof fn lemma_object_touch(path: Seq<char>, o: Members, n: Members, i: int)
    requires
        tree_wf(JsonTree::Object(n)),
        0 <= i < changes(path, JsonTree::Object(o), JsonTree::Object(n)).len(),
    ensures
        in_changed_member(
            path,
            o,
            n,
            changes(path, JsonTree::Object(o), JsonTree::Object(n))[i].path,
        ),
    decreases n, n.len() + 1,
{
    let gone = removals(path, o, n, o.len());
    let all = changes(path, JsonTree::Object(o), JsonTree::Object(n));
    if i < gone.len() {
        lemma_removals_touch(path, o, n, o.len(), i);
        assert(all[i] == gone[i]);
    } else {
        lemma_members_touch(path, o, n, n.len(), i - gone.len());
        assert(all[i] == member_changes(path, o, n, n.len())[i - gone.len()]);
    }
}

proof fn lemma_changes_below(path: Seq<char>, old_t: JsonTree, new_t: JsonTree, i: int)
    requires
        tree_wf(new_t),
        0 <= i < changes(path, old_t, new_t).len(),
    ensures
        begins_with(changes(path, old_t, new_t)[i].path, path),
    decreases new_t, 0nat,
{
    let at = changes(path, old_t, new_t)[i].path;
    match (old_t, new_t) {
        (JsonTree::Object(o), JsonTree::Object(n)) => {
            lemma_object_touch(path, o, n, i);
            let key = choose|key: Seq<char>| #[trigger]
                member_differs(o, n, key) && begins_with(at, member_path(path, key));
            lemma_begins_below(at, path, escaped(key));
        },
        (JsonTree::Array(o), JsonTree::Array(n)) => {
            lemma_array_touch(path, o, n, i);
            let k = choose|k: nat|
                begins_with(at, #[trigger] element_path(path, k)) && (k >= o.len() || k >= n.len()
                    || meaning(o[k as int]) != meaning(n[k as int]));
            lemma_begins_below(at, path, decimal(k));
        },
        _ => {
            lemma_begins_with_itself(path);
        },
    }
}

/// A patch goes down to what changed. Between two objects, each operation is about a member that
/// differs, and between two arrays about an element that does: what is the same on both sides is
/// not touched. Where the two values are neither both objects nor both arrays, the new value is put
/// in the place of the old one as a whole.
pub proof fn patches_touch_only_changes(path: Seq<char>, old_t: JsonTree, new_t: JsonTree, i: int)
    requires
        tree_wf(old_t),
        tree_wf(new_t),
        0 <= i < changes(path, old_t, new_t).len(),
    ensures
        begins_with(changes(path, old_t, new_t)[i].path, path),
        old_t matches JsonTree::Object(o) ==> new_t matches JsonTree::Object(n) ==> in_changed_member(
            path,
            o,
            n,
            changes(path, old_t, new_t)[i].path,
        ),
        old_t matches JsonTree::Array(o) ==> new_t matches JsonTree::Array(n) ==> in_changed_element(
            path,
            o,
            n,
            changes(path, old_t, new_t)[i].path,
        ),
        !(old_t is Object && new_t is Object) && !(old_t is Array && new_t is Array) ==> changes(
            path,
            old_t,
            new_t,
        ) == seq![PatchOp { path, edit: EditTree::Replace(new_t) }],
{
    lemma_changes_below(path, old_t, new_t, i);
    if let JsonTree::Object(o) = old_t {
        if let JsonTree::Object(n) = new_t {
            lemma_object_touch(path, o, n, i);
        }
    }
    if let JsonTree::Array(o) = old_t {
        if let JsonTree::Array(n) = new_t {
            lemma_array_touch(path, o, n, i);
        }
    }
}

/// A patch is worth it exactly where it takes less than four fifths of what it stands for.
pub proof fn small_patches_are_worth_it(patch_bytes: usize, new_bytes: usize, worth_it: bool)
    requires
        call_ensures(is_patch_worth_it, (patch_bytes, new_bytes), worth_it),
    ensures
        worth_it <==> patch_bytes * 100 < new_bytes * 80,
{
}

/// The patch between two texts, applied to the first, gives a text that says what the second says;
/// and there is a patch exactly where both are JSON.
pub proof fn patches_lead_from_text_to_text(
    old_str: &str,
    new_str: &str,
    patch: Option<Json>,
    applied: Result<String, PatchError>,
)
    requires
        call_ensures(diff_to_patch, (old_str, new_str), patch),
        patch is Some ==> call_ensures(apply_patch, (old_str, &patch->0), applied),
    ensures
        patch is Some <==> json_of_text(old_str@) is Ok && json_of_text(new_str@) is Ok,
        patch is Some ==> (applied matches Ok(s) && (json_of_text(s@) matches Ok(got) && meaning(got)
            == meaning(json_of_text(new_str@)->Ok_0))),
{
    if patch is Some {
        assert(patch_between(old_str@, new_str@) == Some(patch->0.tree()));
    }
}

} // verus!
