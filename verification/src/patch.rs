//! JSON Patch between two versions of a packed value.
//!
//! A patch is computed on the JSON text of a packed value, so that any client with a JSON Patch
//! library can apply it. It is worth sending only where it is smaller than the value itself; where
//! it is not, the full value is sent instead.

use vstd::prelude::*;
use vstd::string::*;
use vstd::utf8::encode_utf8;
use crate::edit::{
    edit_result, edit_wf, edited_at, lemma_array_of_wf, lemma_object_of_wf, remove_at_path,
    set_at_path, EditTree, PatchFault,
};
use crate::json::{
    find_member, has_member, lemma_array_tree, lemma_array_wf, lemma_member_index,
    lemma_object_tree, lemma_object_wf, meaning, member_index, members, tree_depth, tree_wf, trees,
    Json, JsonTree, Members,
};
use crate::json_text::{
    holds, json_of_text, parse_json, print_json, readable, text_of_json, MAX_DEPTH,
};
use crate::packed::JsonPackedValue;
use crate::patch_laws::{empty_patch_between_equals, meaning_fixes_depth, patch_round_trip};
use crate::pointer::{element_path, escape_pointer, member_path};
use crate::text::{byte_len, concat, decimal_text, same_text};

verus! {

/// The smallest text, in bytes, that is worth patching.
pub const MIN_PATCHABLE_SIZE: usize = 1024;

/// Whether a patch is worth sending: it has to be smaller than four fifths of the value.
pub fn is_patch_worth_it(patch_bytes: usize, new_bytes: usize) -> (r: bool)
    ensures
        r == (5 * patch_bytes < 4 * new_bytes),
{
    5 * (patch_bytes as u128) < 4 * (new_bytes as u128)
}

/// One operation of a patch.
pub struct PatchOp {
    pub path: Seq<char>,
    pub edit: EditTree,
}

/// How an operation is written.
pub open spec fn op_tree(op: PatchOp) -> JsonTree {
    match op.edit {
        EditTree::Add(v) => JsonTree::Object(
            seq![
                ("op"@, JsonTree::Text("add"@)),
                ("path"@, JsonTree::Text(op.path)),
                ("value"@, v),
            ],
        ),
        EditTree::Replace(v) => JsonTree::Object(
            seq![
                ("op"@, JsonTree::Text("replace"@)),
                ("path"@, JsonTree::Text(op.path)),
                ("value"@, v),
            ],
        ),
        EditTree::Remove => JsonTree::Object(
            seq![("op"@, JsonTree::Text("remove"@)), ("path"@, JsonTree::Text(op.path))],
        ),
    }
}

/// How some operations are written.
pub open spec fn op_trees(ops: Seq<PatchOp>) -> Seq<JsonTree> {
    ops.map_values(|op: PatchOp| op_tree(op))
}

/// Removals of the members, among the first `k`, that the new object does not have.
pub open spec fn removals(path: Seq<char>, old_es: Members, new_es: Members, k: nat) -> Seq<PatchOp>
    decreases k,
{
    if k == 0 || k > old_es.len() {
        Seq::empty()
    } else {
        let key = old_es[k - 1].0;
        let before = removals(path, old_es, new_es, (k - 1) as nat);
        if has_member(new_es, key) {
            before
        } else {
            before.push(PatchOp { path: member_path(path, key), edit: EditTree::Remove })
        }
    }
}

/// What brings the first `k` members of the new object about: an addition, or the changes within a
/// member that was there before.
pub open spec fn member_changes(path: Seq<char>, old_es: Members, new_es: Members, k: nat) -> Seq<
    PatchOp,
>
    decreases new_es, k,
{
    if k == 0 || k > new_es.len() {
        Seq::empty()
    } else {
        let key = new_es[k - 1].0;
        let at = member_path(path, key);
        let before = member_changes(path, old_es, new_es, (k - 1) as nat);
        if has_member(old_es, key) {
            before + changes(at, old_es[member_index(old_es, key)].1, new_es[k - 1].1)
        } else {
            before.push(PatchOp { path: at, edit: EditTree::Add(new_es[k - 1].1) })
        }
    }
}

/// The changes within the first `k` elements of two arrays.
pub open spec fn element_changes(
    path: Seq<char>,
    old_ts: Seq<JsonTree>,
    new_ts: Seq<JsonTree>,
    k: nat,
) -> Seq<PatchOp>
    decreases new_ts, k,
{
    if k == 0 || k > new_ts.len() {
        Seq::empty()
    } else {
        element_changes(path, old_ts, new_ts, (k - 1) as nat) + changes(
            element_path(path, (k - 1) as nat),
            old_ts[k - 1],
            new_ts[k - 1],
        )
    }
}

/// Additions of the elements from `from` up to `to`.
pub open spec fn element_additions(path: Seq<char>, ts: Seq<JsonTree>, from: nat, to: nat) -> Seq<
    PatchOp,
> {
    Seq::new(
        if from <= to {
            (to - from) as nat
        } else {
            0
        },
        |j: int|
            PatchOp {
                path: element_path(path, (from + j) as nat),
                edit: EditTree::Add(ts[from + j]),
            },
    )
}

/// Removals of the elements before `from`, down to `to`.
pub open spec fn element_removals(path: Seq<char>, from: nat, to: nat) -> Seq<PatchOp> {
    Seq::new(
        if to <= from {
            (from - to) as nat
        } else {
            0
        },
        |j: int|
            PatchOp {
                path: element_path(path, (from - 1 - j) as nat),
                edit: EditTree::Remove,
            },
    )
}

/// The operations that turn one value into another, at a path.
pub open spec fn changes(path: Seq<char>, old_t: JsonTree, new_t: JsonTree) -> Seq<PatchOp>
    decreases new_t, 0nat,
{
    if meaning(old_t) == meaning(new_t) {
        Seq::empty()
    } else {
        match (old_t, new_t) {
            (JsonTree::Object(o), JsonTree::Object(n)) => removals(path, o, n, o.len())
                + member_changes(path, o, n, n.len()),
            (JsonTree::Array(o), JsonTree::Array(n)) => {
                let common = if o.len() <= n.len() {
                    o.len()
                } else {
                    n.len()
                };
                element_changes(path, o, n, common) + element_additions(path, n, common, n.len())
                    + element_removals(path, o.len(), common)
            },
            _ => seq![PatchOp { path, edit: EditTree::Replace(new_t) }],
        }
    }
}

/// The patch from one value to another.
pub open spec fn patch_tree(old_t: JsonTree, new_t: JsonTree) -> JsonTree {
    JsonTree::Array(op_trees(changes(Seq::empty(), old_t, new_t)))
}

fn op_member(key: &str, text: &str) -> (r: (String, Json))
    ensures
        r.0@ == key@,
        r.1.tree() == JsonTree::Text(text@),
{
    (key.to_owned(), Json::Text(text.to_owned()))
}

fn push_op(ops: &mut Vec<Json>, name: &str, path: &str, value: Option<Json>, Ghost(op): Ghost<PatchOp>)
    requires
        op.path == path@,
        match op.edit {
            EditTree::Add(v) => name@ == "add"@ && value is Some && value->0.tree() == v,
            EditTree::Replace(v) => name@ == "replace"@ && value is Some && value->0.tree() == v,
            EditTree::Remove => name@ == "remove"@ && value is None,
        },
    ensures
        trees(final(ops)@) == trees(old(ops)@).push(op_tree(op)),
{
    let ghost before = trees(ops@);
    let mut es: Vec<(String, Json)> = Vec::new();
    es.push(op_member("op", name));
    es.push(op_member("path", path));
    if let Some(v) = value {
        es.push(("value".to_owned(), v));
    }
    proof {
        lemma_object_tree(es);
        assert(members(es@) =~= op_tree(op)->Object_0);
    }
    ops.push(Json::Object(es));
    assert(trees(ops@) =~= before.push(op_tree(op)));
}

fn below(path: &str, token: &str) -> (r: String)
    ensures
        r@ == path@.push('/') + token@,
{
    let mut s = path.to_owned();
    s.push('/');
    concat(s.as_str(), token)
}

fn diff_objects(
    path: &str,
    old_es: &Vec<(String, Json)>,
    new_es: &Vec<(String, Json)>,
    ops: &mut Vec<Json>,
)
    requires
        tree_wf(JsonTree::Object(members(old_es@))),
        tree_wf(JsonTree::Object(members(new_es@))),
    ensures
        trees(final(ops)@) == trees(old(ops)@) + op_trees(
            removals(path@, members(old_es@), members(new_es@), members(old_es@).len())
                + member_changes(path@, members(old_es@), members(new_es@), members(new_es@).len()),
        ),
    decreases new_es@, 1nat,
{
    let ghost before = trees(ops@);
    let ghost o = members(old_es@);
    let ghost n = members(new_es@);
    let mut i: usize = 0;
    assert(before + op_trees(removals(path@, o, n, 0)) =~= before);
    while i < old_es.len()
        invariant
            i <= old_es.len(),
            o == members(old_es@),
            n == members(new_es@),
            trees(ops@) == before + op_trees(removals(path@, o, n, i as nat)),
        decreases old_es.len() - i,
    {
        let key = old_es[i].0.as_str();
        let ghost done = removals(path@, o, n, i as nat);
        proof {
            lemma_member_index(n, key@);
        }
        if find_member(new_es, key).is_none() {
            let at = below(path, escape_pointer(key).as_str());
            let ghost op = PatchOp { path: at@, edit: EditTree::Remove };
            push_op(ops, "remove", at.as_str(), None, Ghost(op));
            assert(op_trees(done.push(op)) =~= op_trees(done).push(op_tree(op)));
            assert(trees(ops@) =~= before + op_trees(done.push(op)));
        }
        i += 1;
    }
    let ghost removed = removals(path@, o, n, o.len());
    i = 0;
    assert(removed + member_changes(path@, o, n, 0) =~= removed);
    while i < new_es.len()
        invariant
            i <= new_es.len(),
            o == members(old_es@),
            n == members(new_es@),
            tree_wf(JsonTree::Object(o)),
            tree_wf(JsonTree::Object(n)),
            trees(ops@) == before + op_trees(removed + member_changes(path@, o, n, i as nat)),
        decreases new_es.len() - i,
    {
        let key = new_es[i].0.as_str();
        let at = below(path, escape_pointer(key).as_str());
        let ghost done = removed + member_changes(path@, o, n, i as nat);
        proof {
            lemma_member_index(o, key@);
            lemma_object_wf(n, i as int);
        }
        match find_member(old_es, key) {
            Some(k) => {
                proof {
                    lemma_object_wf(o, k as int);
                    assert(decreases_to!(new_es@ => new_es@[i as int]));
                    assert(decreases_to!(new_es@[i as int] => new_es@[i as int].1));
                }
                diff_value(at.as_str(), &old_es[k].1, &new_es[i].1, ops);
                let ghost more = changes(at@, o[k as int].1, n[i as int].1);
                assert(op_trees(done + more) =~= op_trees(done) + op_trees(more));
                assert(done + more =~= removed + (member_changes(path@, o, n, i as nat) + more));
                assert(trees(ops@) =~= before + op_trees(done + more));
            },
            None => {
                let ghost op = PatchOp { path: at@, edit: EditTree::Add(n[i as int].1) };
                push_op(ops, "add", at.as_str(), Some(new_es[i].1.duplicate()), Ghost(op));
                assert(op_trees(done.push(op)) =~= op_trees(done).push(op_tree(op)));
                assert(done.push(op) =~= removed + member_changes(path@, o, n, i as nat).push(op));
                assert(trees(ops@) =~= before + op_trees(done.push(op)));
            },
        }
        i += 1;
    }
}

fn diff_arrays(path: &str, old_vs: &Vec<Json>, new_vs: &Vec<Json>, ops: &mut Vec<Json>)
    requires
        tree_wf(JsonTree::Array(trees(old_vs@))),
        tree_wf(JsonTree::Array(trees(new_vs@))),
    ensures
        ({
            let o = trees(old_vs@);
            let n = trees(new_vs@);
            let common = if o.len() <= n.len() {
                o.len()
            } else {
                n.len()
            };
            trees(final(ops)@) == trees(old(ops)@) + op_trees(
                element_changes(path@, o, n, common) + element_additions(path@, n, common, n.len())
                    + element_removals(path@, o.len(), common),
            )
        }),
    decreases new_vs@, 1nat,
{
    let ghost before = trees(ops@);
    let ghost o = trees(old_vs@);
    let ghost n = trees(new_vs@);
    let common: usize = if old_vs.len() <= new_vs.len() {
        old_vs.len()
    } else {
        new_vs.len()
    };
    let mut i: usize = 0;
    assert(before + op_trees(element_changes(path@, o, n, 0)) =~= before);
    while i < common
        invariant
            i <= common <= old_vs.len(),
            common <= new_vs.len(),
            o == trees(old_vs@),
            n == trees(new_vs@),
            tree_wf(JsonTree::Array(o)),
            tree_wf(JsonTree::Array(n)),
            trees(ops@) == before + op_trees(element_changes(path@, o, n, i as nat)),
        decreases common - i,
    {
        let at = below(path, decimal_text(i as u64).as_str());
        let ghost done = element_changes(path@, o, n, i as nat);
        proof {
            lemma_array_wf(o, i as int);
            lemma_array_wf(n, i as int);
            assert(decreases_to!(new_vs@ => new_vs@[i as int]));
        }
        diff_value(at.as_str(), &old_vs[i], &new_vs[i], ops);
        let ghost more = changes(at@, o[i as int], n[i as int]);
        assert(op_trees(done + more) =~= op_trees(done) + op_trees(more));
        assert(trees(ops@) =~= before + op_trees(done + more));
        i += 1;
    }
    let ghost changed = element_changes(path@, o, n, common as nat);
    assert(changed + element_additions(path@, n, common as nat, common as nat) =~= changed);
    while i < new_vs.len()
        invariant
            common <= i <= new_vs.len(),
            n == trees(new_vs@),
            trees(ops@) == before + op_trees(
                changed + element_additions(path@, n, common as nat, i as nat),
            ),
        decreases new_vs.len() - i,
    {
        let at = below(path, decimal_text(i as u64).as_str());
        let ghost done = changed + element_additions(path@, n, common as nat, i as nat);
        let ghost op = PatchOp { path: at@, edit: EditTree::Add(n[i as int]) };
        push_op(ops, "add", at.as_str(), Some(new_vs[i].duplicate()), Ghost(op));
        assert(op_trees(done.push(op)) =~= op_trees(done).push(op_tree(op)));
        assert(done.push(op) =~= changed + element_additions(
            path@,
            n,
            common as nat,
            (i + 1) as nat,
        ));
        assert(trees(ops@) =~= before + op_trees(done.push(op)));
        i += 1;
    }
    let ghost added = changed + element_additions(path@, n, common as nat, n.len());
    let mut j: usize = old_vs.len();
    assert(added + element_removals(path@, o.len(), o.len()) =~= added);
    while j > common
        invariant
            common <= j <= old_vs.len(),
            o == trees(old_vs@),
            trees(ops@) == before + op_trees(added + element_removals(path@, o.len(), j as nat)),
        decreases j,
    {
        j -= 1;
        let at = below(path, decimal_text(j as u64).as_str());
        let ghost done = added + element_removals(path@, o.len(), (j + 1) as nat);
        let ghost op = PatchOp { path: at@, edit: EditTree::Remove };
        push_op(ops, "remove", at.as_str(), None, Ghost(op));
        assert(op_trees(done.push(op)) =~= op_trees(done).push(op_tree(op)));
        assert(done.push(op) =~= added + element_removals(path@, o.len(), j as nat));
        assert(trees(ops@) =~= before + op_trees(done.push(op)));
    }
}

/// Collect the operations that turn one value into another.
pub fn diff_value(path: &str, old_v: &Json, new_v: &Json, ops: &mut Vec<Json>)
    requires
        tree_wf(old_v.tree()),
        tree_wf(new_v.tree()),
    ensures
        trees(final(ops)@) == trees(old(ops)@) + op_trees(
            changes(path@, old_v.tree(), new_v.tree()),
        ),
    decreases new_v, 0nat,
{
    let ghost before = trees(ops@);
    if old_v.equals(new_v) {
        assert(before + op_trees(Seq::empty()) =~= before);
        return ;
    }
    match (old_v, new_v) {
        (Json::Object(o), Json::Object(n)) => {
            proof {
                lemma_object_tree(*o);
                lemma_object_tree(*n);
                assert(decreases_to!(*new_v => new_v->Object_0));
                assert(decreases_to!(n => n@));
            }
            diff_objects(path, o, n, ops);
        },
        (Json::Array(o), Json::Array(n)) => {
            proof {
                lemma_array_tree(*o);
                lemma_array_tree(*n);
                assert(decreases_to!(*new_v => new_v->Array_0));
                assert(decreases_to!(n => n@));
            }
            diff_arrays(path, o, n, ops);
        },
        _ => {
            let ghost op = PatchOp { path: path@, edit: EditTree::Replace(new_v.tree()) };
            push_op(ops, "replace", path, Some(new_v.duplicate()), Ghost(op));
            assert(before + op_trees(seq![op]) =~= before.push(op_tree(op)));
        },
    }
}

/// The patch between two texts, where both can be read.
pub open spec fn patch_between(old_text: Seq<char>, new_text: Seq<char>) -> Option<JsonTree> {
    match (json_of_text(old_text), json_of_text(new_text)) {
        (Ok(o), Ok(n)) => Some(patch_tree(o, n)),
        _ => None,
    }
}

/// Whether every value that some operations write is well-formed.
spec fn ops_wf(ops: Seq<PatchOp>) -> bool {
    forall|i: int| 0 <= i < ops.len() ==> edit_wf((#[trigger] ops[i]).edit)
}

proof fn lemma_member_changes_wf(path: Seq<char>, o: Members, n: Members, k: nat)
    requires
        tree_wf(JsonTree::Object(o)),
        tree_wf(JsonTree::Object(n)),
        k <= n.len(),
    ensures
        ops_wf(member_changes(path, o, n, k)),
    decreases n, k,
{
    if k > 0 {
        lemma_member_changes_wf(path, o, n, (k - 1) as nat);
        lemma_object_wf(n, k - 1);
        let key = n[k - 1].0;
        lemma_member_index(o, key);
        if has_member(o, key) {
            lemma_object_wf(o, member_index(o, key));
            lemma_changes_wf(member_path(path, key), o[member_index(o, key)].1, n[k - 1].1);
        }
    }
}

proof fn lemma_element_changes_wf(path: Seq<char>, o: Seq<JsonTree>, n: Seq<JsonTree>, k: nat)
    requires
        tree_wf(JsonTree::Array(o)),
        tree_wf(JsonTree::Array(n)),
        k <= n.len(),
        k <= o.len(),
    ensures
        ops_wf(element_changes(path, o, n, k)),
    decreases n, k,
{
    if k > 0 {
        lemma_element_changes_wf(path, o, n, (k - 1) as nat);
        lemma_array_wf(o, k - 1);
        lemma_array_wf(n, k - 1);
        lemma_changes_wf(element_path(path, (k - 1) as nat), o[k - 1], n[k - 1]);
    }
}

proof fn lemma_removals_wf(path: Seq<char>, o: Members, n: Members, k: nat)
    ensures
        ops_wf(removals(path, o, n, k)),
    decreases k,
{
    if 0 < k <= o.len() {
        lemma_removals_wf(path, o, n, (k - 1) as nat);
    }
}

proof fn lemma_changes_wf(path: Seq<char>, old_t: JsonTree, new_t: JsonTree)
    requires
        tree_wf(old_t),
        tree_wf(new_t),
    ensures
        ops_wf(changes(path, old_t, new_t)),
    decreases new_t, 0nat,
{
    if meaning(old_t) != meaning(new_t) {
        match (old_t, new_t) {
            (JsonTree::Object(o), JsonTree::Object(n)) => {
                lemma_removals_wf(path, o, n, o.len());
                lemma_member_changes_wf(path, o, n, n.len());
            },
            (JsonTree::Array(o), JsonTree::Array(n)) => {
                let common = if o.len() <= n.len() {
                    o.len()
                } else {
                    n.len()
                };
                lemma_element_changes_wf(path, o, n, common);
                let more = element_additions(path, n, common, n.len());
                assert forall|i: int| 0 <= i < more.len() implies edit_wf(
                    (#[trigger] more[i]).edit,
                ) by {
                    lemma_array_wf(n, common + i);
                }
            },
            _ => {},
        }
    }
}

/// The names in an operation differ from each other.
pub proof fn lemma_op_names()
    ensures
        "op"@ != "path"@,
        "op"@ != "value"@,
        "path"@ != "value"@,
        "add"@ != "replace"@,
        "add"@ != "remove"@,
        "replace"@ != "remove"@,
{
    reveal_strlit("op");
    reveal_strlit("path");
    reveal_strlit("value");
    reveal_strlit("add");
    reveal_strlit("replace");
    reveal_strlit("remove");
    assert("path"@[0] == 'p');
    assert("value"@[0] == 'v');
    assert("add"@.len() == 3);
    assert("remove"@.len() == 6);
    assert("replace"@.len() == 7);
}

proof fn lemma_op_wf(op: PatchOp)
    requires
        edit_wf(op.edit),
    ensures
        tree_wf(op_tree(op)),
{
    lemma_op_names();
    lemma_object_of_wf(op_tree(op)->Object_0);
}

/// The patch between two well-formed values is well-formed, where its length is a machine number.
pub proof fn lemma_patch_wf(old_t: JsonTree, new_t: JsonTree)
    requires
        tree_wf(old_t),
        tree_wf(new_t),
        changes(Seq::empty(), old_t, new_t).len() <= usize::MAX,
    ensures
        tree_wf(patch_tree(old_t, new_t)),
{
    let ops = changes(Seq::empty(), old_t, new_t);
    lemma_changes_wf(Seq::empty(), old_t, new_t);
    let ts = op_trees(ops);
    assert forall|i: int| 0 <= i < ts.len() implies tree_wf(#[trigger] ts[i]) by {
        lemma_op_wf(ops[i]);
    }
    lemma_array_of_wf(ts);
}

/// The patch between two texts as an array of operations, or nothing where one of them is no JSON.
pub fn diff_to_patch(old_str: &str, new_str: &str) -> (r: Option<Json>)
    ensures
        match r {
            Some(p) => patch_between(old_str@, new_str@) == Some(p.tree()),
            None => patch_between(old_str@, new_str@) is None,
        },
        r matches Some(p) ==> p is Array && tree_wf(p.tree()),
        r is Some ==> readable(old_str@) && readable(new_str@),
        r matches Some(p) ==> (p.tree()->Array_0.len() == 0 <==> meaning(
            json_of_text(old_str@)->Ok_0,
        ) == meaning(json_of_text(new_str@)->Ok_0)),
{
    match (parse_json(old_str), parse_json(new_str)) {
        (Ok(old_json), Ok(new_json)) => {
            let mut ops: Vec<Json> = Vec::new();
            assert(trees(ops@) =~= Seq::empty());
            diff_value("", &old_json, &new_json, &mut ops);
            proof {
                reveal_strlit("");
                assert(""@ =~= Seq::empty());
                let cs = changes(Seq::empty(), old_json.tree(), new_json.tree());
                assert(trees(ops@) =~= op_trees(cs));
                assert(ops.len() == cs.len());
                lemma_array_tree(ops);
                lemma_patch_wf(old_json.tree(), new_json.tree());
                empty_patch_between_equals(old_json.tree(), new_json.tree());
            }
            Some(Json::Array(ops))
        },
        _ => None,
    }
}

/// The patch that is sent between two texts, if one is: the new text has to be large enough, the
/// texts have to differ, and the patch has to be worth it and not empty.
pub open spec fn patch_sent(old_text: Seq<char>, new_text: Seq<char>) -> Option<JsonTree> {
    let new_bytes = encode_utf8(new_text).len();
    match patch_between(old_text, new_text) {
        None => None,
        Some(p) => if new_bytes >= MIN_PATCHABLE_SIZE && old_text != new_text && 5 * encode_utf8(
            text_of_json(p),
        ).len() < 4 * new_bytes && p->Array_0.len() > 0 {
            Some(p)
        } else {
            None
        },
    }
}

/// A patch from one packed value to another, where sending it saves bandwidth.
pub fn maybe_patch(old_v: &JsonPackedValue, new_v: &JsonPackedValue) -> (r: Option<Json>)
    ensures
        match r {
            Some(p) => patch_sent(old_v@, new_v@) == Some(p.tree()),
            None => patch_sent(old_v@, new_v@) is None,
        },
        r matches Some(p) ==> tree_wf(p.tree()),
        r is Some ==> readable(old_v@) && readable(new_v@),
{
    let old_str = old_v.as_str();
    let new_str = new_v.as_str();
    let new_bytes: usize = byte_len(new_str);
    if new_bytes < MIN_PATCHABLE_SIZE {
        return None;
    }
    if same_text(old_str, new_str) {
        return None;
    }
    let patch = diff_to_patch(old_str, new_str)?;
    let patch_str = print_json(&patch);
    if !is_patch_worth_it(byte_len(patch_str.as_str()), new_bytes) {
        return None;
    }
    if let Json::Array(ops) = &patch {
        proof {
            lemma_array_tree(*ops);
        }
        if ops.len() == 0 {
            return None;
        }
    }
    Some(patch)
}

/// Why a patch could not be applied to a text.
#[derive(Debug)]
pub enum PatchError {
    /// The text is no JSON; what was wrong with it.
    Document(String),
    /// The patch does not fit the document.
    Fault(PatchFault),
}

/// The member of an object that holds text.
pub open spec fn text_member(t: JsonTree, key: Seq<char>) -> Option<Seq<char>> {
    match t {
        JsonTree::Object(es) => if has_member(es, key) {
            match es[member_index(es, key)].1 {
                JsonTree::Text(s) => Some(s),
                _ => None,
            }
        } else {
            None
        },
        _ => None,
    }
}

/// The operation that a JSON value stands for.
pub open spec fn op_read(t: JsonTree) -> Result<PatchOp, PatchFault> {
    match (text_member(t, "op"@), text_member(t, "path"@)) {
        (None, _) => Err(PatchFault::MissingOp),
        (_, None) => Err(PatchFault::MissingPath),
        (Some(name), Some(path)) => {
            let es = t->Object_0;
            let value = es[member_index(es, "value"@)].1;
            if name == "add"@ || name == "replace"@ {
                if !has_member(es, "value"@) {
                    Err(PatchFault::MissingValue)
                } else if name == "add"@ {
                    Ok(PatchOp { path, edit: EditTree::Add(value) })
                } else {
                    Ok(PatchOp { path, edit: EditTree::Replace(value) })
                }
            } else if name == "remove"@ {
                Ok(PatchOp { path, edit: EditTree::Remove })
            } else {
                Err(PatchFault::UnsupportedOp)
            }
        },
    }
}

/// A document after one operation.
pub open spec fn op_applied(doc: JsonTree, op: JsonTree) -> Result<JsonTree, PatchFault> {
    match op_read(op) {
        Err(f) => Err(f),
        Ok(op) => edited_at(doc, op.path, op.edit),
    }
}

/// A document after some operations, one after the other.
pub open spec fn ops_applied(doc: JsonTree, ops: Seq<JsonTree>) -> Result<JsonTree, PatchFault>
    decreases ops.len(),
{
    if ops.len() == 0 {
        Ok(doc)
    } else {
        match op_applied(doc, ops[0]) {
            Err(f) => Err(f),
            Ok(d) => ops_applied(d, ops.skip(1)),
        }
    }
}

/// A document after a patch.
pub open spec fn patch_applied(doc: JsonTree, patch: JsonTree) -> Result<JsonTree, PatchFault> {
    match patch {
        JsonTree::Array(ops) => ops_applied(doc, ops),
        _ => Err(PatchFault::NotAnArray),
    }
}

fn get_text<'a>(v: &'a Json, key: &str) -> (r: Option<&'a str>)
    ensures
        match r {
            Some(s) => text_member(v.tree(), key@) == Some(s@),
            None => text_member(v.tree(), key@) is None,
        },
{
    if let Json::Object(es) = v {
        proof {
            lemma_object_tree(*es);
            lemma_member_index(members(es@), key@);
        }
        if let Some(i) = find_member(es, key) {
            if let Json::Text(s) = &es[i].1 {
                return Some(s.as_str());
            }
        }
    }
    None
}

/// Apply one operation to a document.
pub fn apply_op(doc: Json, op: &Json) -> (r: Result<Json, PatchFault>)
    ensures
        edit_result(r) == op_applied(doc.tree(), op.tree()),
        tree_wf(doc.tree()) && tree_wf(op.tree()) ==> (r matches Ok(d) ==> tree_wf(d.tree())),
{
    let name = match get_text(op, "op") {
        None => {
            return Err(PatchFault::MissingOp);
        },
        Some(s) => s,
    };
    let path = match get_text(op, "path") {
        None => {
            return Err(PatchFault::MissingPath);
        },
        Some(s) => s,
    };
    proof {
        lemma_op_names();
    }
    let is_add = same_text(name, "add");
    if is_add || same_text(name, "replace") {
        if let Json::Object(es) = op {
            proof {
                lemma_object_tree(*es);
                lemma_member_index(members(es@), "value"@);
            }
            match find_member(es, "value") {
                None => Err(PatchFault::MissingValue),
                Some(i) => {
                    proof {
                        if tree_wf(op.tree()) {
                            lemma_object_wf(members(es@), i as int);
                        }
                    }
                    set_at_path(doc, path, es[i].1.duplicate(), is_add)
                },
            }
        } else {
            Err(PatchFault::MissingOp)
        }
    } else if same_text(name, "remove") {
        remove_at_path(doc, path)
    } else {
        Err(PatchFault::UnsupportedOp)
    }
}

/// Whether a text reads as a value that means what another text means.
pub open spec fn reads_as(text: Seq<char>, new_text: Seq<char>) -> bool {
    json_of_text(text) matches Ok(got) && meaning(got) == meaning(json_of_text(new_text)->Ok_0)
}

/// Apply a patch to a document. The text that comes out reads as the patched document, as long as
/// that nests no deeper than the reader goes. The patch between the document and any other text
/// gives a text that means what the other means.
pub fn apply_patch(old_str: &str, patch: &Json) -> (r: Result<String, PatchError>)
    requires
        tree_wf(patch.tree()),
    ensures
        match json_of_text(old_str@) {
            Err(e) => r matches Err(PatchError::Document(s)) && s@ == e,
            Ok(doc) => match patch_applied(doc, patch.tree()) {
                Err(f) => r == Err::<String, PatchError>(PatchError::Fault(f)),
                Ok(d) => r matches Ok(s) && s@ == text_of_json(d) && (tree_depth(d) <= MAX_DEPTH
                    ==> holds(json_of_text(s@), d)),
            },
        },
        forall|new_text: Seq<char>| #[trigger]
            patch_between(old_str@, new_text) == Some(patch.tree()) && readable(new_text) ==> (
            r matches Ok(s) && reads_as(s@, new_text)),
{
    let mut doc = match parse_json(old_str) {
        Err(e) => {
            return Err(PatchError::Document(e));
        },
        Ok(d) => d,
    };
    let ops = match patch {
        Json::Array(ops) => ops,
        _ => {
            return Err(PatchError::Fault(PatchFault::NotAnArray));
        },
    };
    let ghost start = doc.tree();
    let ghost all = trees(ops@);
    proof {
        lemma_array_tree(*ops);
        assert(all.skip(0) =~= all);
    }
    let mut i: usize = 0;
    while i < ops.len()
        invariant
            i <= ops.len(),
            all == trees(ops@),
            patch.tree() == JsonTree::Array(all),
            tree_wf(patch.tree()),
            tree_wf(doc.tree()),
            json_of_text(old_str@) == Ok::<JsonTree, Seq<char>>(start),
            tree_wf(start),
            ops_applied(start, all) == ops_applied(doc.tree(), all.skip(i as int)),
        decreases ops.len() - i,
    {
        proof {
            lemma_array_wf(all, i as int);
            assert(all.skip(i as int).skip(1) =~= all.skip(i + 1));
        }
        match apply_op(doc, &ops[i]) {
            Err(f) => {
                proof {
                    assert forall|new_text: Seq<char>| #[trigger]
                        patch_between(old_str@, new_text) == Some(patch.tree()) && readable(
                        new_text,
                    ) implies false by {
                        patch_round_trip(start, json_of_text(new_text)->Ok_0);
                    }
                }
                return Err(PatchError::Fault(f));
            },
            Ok(d) => {
                doc = d;
            },
        }
        i += 1;
    }
    let text = print_json(&doc);
    proof {
        assert(all.skip(all.len() as int) =~= Seq::empty());
        assert(patch_applied(start, patch.tree()) == Ok::<JsonTree, PatchFault>(doc.tree()));
        assert forall|new_text: Seq<char>| #[trigger]
            patch_between(old_str@, new_text) == Some(patch.tree()) && readable(
            new_text,
        ) implies reads_as(text@, new_text) by {
            let new_t = json_of_text(new_text)->Ok_0;
            patch_round_trip(start, new_t);
            meaning_fixes_depth(doc.tree(), new_t);
        }
    }
    Ok(text)
}

} // verus!
