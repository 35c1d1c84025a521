//! Editing a JSON document at a pointer, with the operations of JSON Patch.

use vstd::prelude::*;
use vstd::string::*;
use crate::json::{
    distinct_keys, find_member, has_member, lemma_array_tree, lemma_array_wf, lemma_member_index,
    lemma_object_tree, lemma_object_wf, member_index, members, tree_wf, trees, Json, JsonTree,
    Members,
};
use crate::pointer::{parse_pointer, tokens};
use crate::text::{lemma_pieces_nonempty, parse_usize, parsed_number, texts};

verus! {

/// Why a patch does not apply to a document.
#[derive(Debug, Clone, Copy, PartialEq, Eq, Structural)]
pub enum PatchFault {
    /// The patch is not an array.
    NotAnArray,
    /// An operation has no `op` text.
    MissingOp,
    /// An operation has no `path` text.
    MissingPath,
    /// An addition or replacement has no `value`.
    MissingValue,
    /// The `op` is none of `add`, `replace` and `remove`.
    UnsupportedOp,
    /// A pointer is not empty and does not start with `/`.
    PointerWithoutSlash,
    /// The document itself cannot be removed.
    CannotRemoveRoot,
    /// A token that should index an array is no number.
    BadIndex,
    /// A pointer names a member that is not there.
    MissingMember,
    /// A pointer names an element that is not there.
    MissingElement,
    /// An addition past the end of an array.
    AddOutOfBounds,
    /// A pointer goes through something that is neither an object nor an array.
    NotAContainer,
}

/// What to do at a pointer, as content.
pub enum EditTree {
    Add(JsonTree),
    Replace(JsonTree),
    Remove,
}

/// What to do at a pointer.
pub enum Edit {
    Add(Json),
    Replace(Json),
    Remove,
}

impl View for Edit {
    type V = EditTree;

    open spec fn view(&self) -> EditTree {
        match *self {
            Edit::Add(v) => EditTree::Add(v.tree()),
            Edit::Replace(v) => EditTree::Replace(v.tree()),
            Edit::Remove => EditTree::Remove,
        }
    }
}

/// Whether what is to be written is well-formed.
pub open spec fn edit_wf(e: EditTree) -> bool {
    match e {
        EditTree::Add(v) => tree_wf(v),
        EditTree::Replace(v) => tree_wf(v),
        EditTree::Remove => true,
    }
}

/// The index that a token names.
pub open spec fn token_index(token: Seq<char>) -> Option<nat> {
    parsed_number(token, usize::MAX as nat)
}

/// The position of the child that a token names.
pub open spec fn child_index(doc: JsonTree, token: Seq<char>) -> Result<int, PatchFault> {
    match doc {
        JsonTree::Object(es) => if has_member(es, token) {
            Ok(member_index(es, token))
        } else {
            Err(PatchFault::MissingMember)
        },
        JsonTree::Array(ts) => match token_index(token) {
            None => Err(PatchFault::BadIndex),
            Some(i) => if i < ts.len() {
                Ok(i as int)
            } else {
                Err(PatchFault::MissingElement)
            },
        },
        _ => Err(PatchFault::NotAContainer),
    }
}

/// The child at a position.
pub open spec fn child(doc: JsonTree, i: int) -> JsonTree {
    match doc {
        JsonTree::Object(es) => es[i].1,
        JsonTree::Array(ts) => ts[i],
        _ => doc,
    }
}

/// A document with another child at a position.
pub open spec fn with_child(doc: JsonTree, i: int, c: JsonTree) -> JsonTree {
    match doc {
        JsonTree::Object(es) => JsonTree::Object(es.update(i, (es[i].0, c))),
        JsonTree::Array(ts) => JsonTree::Array(ts.update(i, c)),
        _ => doc,
    }
}

/// An object's members with the given one set: in its place, or else at the end.
pub open spec fn member_set(es: Members, key: Seq<char>, v: JsonTree) -> Members {
    if has_member(es, key) {
        es.update(member_index(es, key), (key, v))
    } else {
        es.push((key, v))
    }
}

/// An object's members without one of them, whose place the last one takes.
pub open spec fn member_removed(es: Members, i: int) -> Members {
    es.update(i, es.last()).drop_last()
}

/// Edit the member of an object or the element of an array that a token names.
pub open spec fn edited_child(doc: JsonTree, token: Seq<char>, e: EditTree) -> Result<
    JsonTree,
    PatchFault,
> {
    match doc {
        JsonTree::Object(es) => match e {
            EditTree::Add(v) => Ok(JsonTree::Object(member_set(es, token, v))),
            EditTree::Replace(v) => Ok(JsonTree::Object(member_set(es, token, v))),
            EditTree::Remove => if has_member(es, token) {
                Ok(JsonTree::Object(member_removed(es, member_index(es, token))))
            } else {
                Err(PatchFault::MissingMember)
            },
        },
        JsonTree::Array(ts) => match token_index(token) {
            None => Err(PatchFault::BadIndex),
            Some(i) => match e {
                EditTree::Add(v) => if i <= ts.len() {
                    Ok(JsonTree::Array(ts.insert(i as int, v)))
                } else {
                    Err(PatchFault::AddOutOfBounds)
                },
                EditTree::Replace(v) => if i < ts.len() {
                    Ok(JsonTree::Array(ts.update(i as int, v)))
                } else {
                    Err(PatchFault::MissingElement)
                },
                EditTree::Remove => if i < ts.len() {
                    Ok(JsonTree::Array(ts.remove(i as int)))
                } else {
                    Err(PatchFault::MissingElement)
                },
            },
        },
        _ => Err(PatchFault::NotAContainer),
    }
}

/// Edit a document at the place that some tokens lead to.
pub open spec fn edited(doc: JsonTree, ts: Seq<Seq<char>>, e: EditTree) -> Result<
    JsonTree,
    PatchFault,
>
    decreases ts.len(),
{
    if ts.len() == 0 {
        match e {
            EditTree::Add(v) => Ok(v),
            EditTree::Replace(v) => Ok(v),
            EditTree::Remove => Err(PatchFault::CannotRemoveRoot),
        }
    } else if ts.len() == 1 {
        edited_child(doc, ts[0], e)
    } else {
        match child_index(doc, ts[0]) {
            Err(f) => Err(f),
            Ok(i) => match edited(child(doc, i), ts.skip(1), e) {
                Err(f) => Err(f),
                Ok(c) => Ok(with_child(doc, i, c)),
            },
        }
    }
}

/// Edit a document at a pointer.
pub open spec fn edited_at(doc: JsonTree, path: Seq<char>, e: EditTree) -> Result<
    JsonTree,
    PatchFault,
> {
    match tokens(path) {
        None => Err(PatchFault::PointerWithoutSlash),
        Some(ts) => edited(doc, ts, e),
    }
}

/// What an edit returned, as content.
pub open spec fn edit_result(r: Result<Json, PatchFault>) -> Result<JsonTree, PatchFault> {
    match r {
        Ok(d) => Ok(d.tree()),
        Err(f) => Err(f),
    }
}

/// An array of well-formed values is well-formed.
pub proof fn lemma_array_of_wf(ts: Seq<JsonTree>)
    requires
        ts.len() <= usize::MAX,
        forall|i: int| 0 <= i < ts.len() ==> tree_wf(#[trigger] ts[i]),
    ensures
        tree_wf(JsonTree::Array(ts)),
{
    let t = JsonTree::Array(ts);
    assert forall|i: int| 0 <= i < t->Array_0.len() implies tree_wf(#[trigger] t->Array_0[i]) by {
        assert(tree_wf(ts[i]));
    }
}

/// An object of well-formed values under distinct keys is well-formed.
pub proof fn lemma_object_of_wf(es: Members)
    requires
        distinct_keys(es),
        forall|i: int| 0 <= i < es.len() ==> tree_wf((#[trigger] es[i]).1),
    ensures
        tree_wf(JsonTree::Object(es)),
{
    let t = JsonTree::Object(es);
    assert forall|i: int| 0 <= i < t->Object_0.len() implies tree_wf(
        (#[trigger] t->Object_0[i]).1,
    ) by {
        assert(tree_wf(es[i].1));
    }
}

/// Setting a member keeps an object well-formed.
pub proof fn lemma_member_set_wf(es: Members, key: Seq<char>, v: JsonTree)
    requires
        tree_wf(JsonTree::Object(es)),
        tree_wf(v),
    ensures
        tree_wf(JsonTree::Object(member_set(es, key, v))),
{
    lemma_member_index(es, key);
    let out = member_set(es, key, v);
    assert forall|i: int| 0 <= i < out.len() implies tree_wf((#[trigger] out[i]).1) by {
        if i < es.len() {
            lemma_object_wf(es, i);
        }
    }
    lemma_object_of_wf(out);
}

/// Removing a member keeps an object well-formed.
pub proof fn lemma_member_removed_wf(es: Members, k: int)
    requires
        tree_wf(JsonTree::Object(es)),
        0 <= k < es.len(),
    ensures
        tree_wf(JsonTree::Object(member_removed(es, k))),
{
    let out = member_removed(es, k);
    assert forall|i: int| 0 <= i < out.len() implies tree_wf((#[trigger] out[i]).1) by {
        lemma_object_wf(es, i);
        lemma_object_wf(es, es.len() - 1);
    }
    lemma_object_of_wf(out);
}

proof fn lemma_child_wf(doc: JsonTree, i: int)
    requires
        tree_wf(doc),
        doc matches JsonTree::Object(es) ==> 0 <= i < es.len(),
        doc matches JsonTree::Array(ts) ==> 0 <= i < ts.len(),
    ensures
        tree_wf(child(doc, i)),
{
    match doc {
        JsonTree::Object(es) => {
            lemma_object_wf(es, i);
        },
        JsonTree::Array(ts) => {
            lemma_array_wf(ts, i);
        },
        _ => {},
    }
}

proof fn lemma_with_child_wf(doc: JsonTree, i: int, c: JsonTree)
    requires
        tree_wf(doc),
        tree_wf(c),
        doc matches JsonTree::Object(es) ==> 0 <= i < es.len(),
        doc matches JsonTree::Array(ts) ==> 0 <= i < ts.len(),
    ensures
        tree_wf(with_child(doc, i, c)),
{
    match doc {
        JsonTree::Object(es) => {
            let out = es.update(i, (es[i].0, c));
            assert forall|j: int| 0 <= j < out.len() implies tree_wf((#[trigger] out[j]).1) by {
                lemma_object_wf(es, j);
            }
            lemma_object_of_wf(out);
        },
        JsonTree::Array(ts) => {
            let out = ts.update(i, c);
            assert forall|j: int| 0 <= j < out.len() implies tree_wf(#[trigger] out[j]) by {
                lemma_array_wf(ts, j);
            }
            lemma_array_of_wf(out);
        },
        _ => {},
    }
}

fn edit_object(mut es: Vec<(String, Json)>, token: &str, e: Edit) -> (r: Result<Json, PatchFault>)
    ensures
        edit_result(r) == edited_child(JsonTree::Object(members(es@)), token@, e@),
        tree_wf(JsonTree::Object(members(es@))) && edit_wf(e@) ==> (r matches Ok(d) ==> tree_wf(
            d.tree(),
        )),
{
    let ghost before = members(es@);
    proof {
        lemma_member_index(before, token@);
    }
    let found = find_member(&es, token);
    match e {
        Edit::Remove => match found {
            None => Err(PatchFault::MissingMember),
            Some(i) => {
                es.swap_remove(i);
                proof {
                    assert(members(es@) =~= member_removed(before, i as int));
                    lemma_object_tree(es);
                    if tree_wf(JsonTree::Object(before)) {
                        lemma_member_removed_wf(before, i as int);
                    }
                }
                Ok(Json::Object(es))
            },
        },
        Edit::Add(v) | Edit::Replace(v) => {
            let ghost value = v.tree();
            match found {
                None => {
                    es.push((token.to_owned(), v));
                },
                Some(i) => {
                    es.set(i, (token.to_owned(), v));
                },
            }
            proof {
                assert(members(es@) =~= member_set(before, token@, value));
                lemma_object_tree(es);
                if tree_wf(JsonTree::Object(before)) && tree_wf(value) {
                    lemma_member_set_wf(before, token@, value);
                }
            }
            Ok(Json::Object(es))
        },
    }
}

fn edit_array(mut vs: Vec<Json>, token: &str, e: Edit) -> (r: Result<Json, PatchFault>)
    ensures
        edit_result(r) == edited_child(JsonTree::Array(trees(vs@)), token@, e@),
        tree_wf(JsonTree::Array(trees(vs@))) && edit_wf(e@) ==> (r matches Ok(d) ==> tree_wf(
            d.tree(),
        )),
{
    let ghost before = trees(vs@);
    let ghost all_wf = tree_wf(JsonTree::Array(before));
    proof {
        if all_wf {
            assert forall|j: int| 0 <= j < before.len() implies tree_wf(#[trigger] before[j]) by {
                lemma_array_wf(before, j);
            }
        }
    }
    let i = match parse_usize(token) {
        None => {
            return Err(PatchFault::BadIndex);
        },
        Some(i) => i,
    };
    match e {
        Edit::Add(v) => {
            if i > vs.len() {
                return Err(PatchFault::AddOutOfBounds);
            }
            let ghost value = v.tree();
            vs.insert(i, v);
            assert(trees(vs@) =~= before.insert(i as int, value));
        },
        Edit::Replace(v) => {
            if i >= vs.len() {
                return Err(PatchFault::MissingElement);
            }
            let ghost value = v.tree();
            vs.set(i, v);
            assert(trees(vs@) =~= before.update(i as int, value));
        },
        Edit::Remove => {
            if i >= vs.len() {
                return Err(PatchFault::MissingElement);
            }
            vs.remove(i);
            assert(trees(vs@) =~= before.remove(i as int));
        },
    }
    proof {
        lemma_array_tree(vs);
        if all_wf && edit_wf(e@) {
            assert(trees(vs@).len() == vs.len());
            lemma_array_of_wf(trees(vs@));
        }
    }
    Ok(Json::Array(vs))
}

fn edit_from(doc: Json, ts: &Vec<String>, at: usize, e: Edit) -> (r: Result<Json, PatchFault>)
    requires
        at <= ts.len(),
    ensures
        edit_result(r) == edited(doc.tree(), texts(ts@).skip(at as int), e@),
        tree_wf(doc.tree()) && edit_wf(e@) ==> (r matches Ok(d) ==> tree_wf(d.tree())),
    decreases ts.len() - at,
{
    let ghost rest = texts(ts@).skip(at as int);
    if at == ts.len() {
        return match e {
            Edit::Add(v) => Ok(v),
            Edit::Replace(v) => Ok(v),
            Edit::Remove => Err(PatchFault::CannotRemoveRoot),
        };
    }
    let token = ts[at].as_str();
    assert(rest[0] == token@);
    assert(rest.skip(1) =~= texts(ts@).skip(at + 1));
    let last = at + 1 == ts.len();
    match doc {
        Json::Object(mut es) => {
            proof {
                lemma_object_tree(es);
                lemma_member_index(members(es@), token@);
            }
            if last {
                return edit_object(es, token, e);
            }
            let ghost before = members(es@);
            match find_member(&es, token) {
                None => Err(PatchFault::MissingMember),
                Some(i) => {
                    let (key, inner) = es.remove(i);
                    proof {
                        if tree_wf(doc.tree()) {
                            lemma_child_wf(doc.tree(), i as int);
                        }
                    }
                    match edit_from(inner, ts, at + 1, e) {
                        Err(f) => Err(f),
                        Ok(c) => {
                            let ghost value = c.tree();
                            es.insert(i, (key, c));
                            proof {
                                assert(members(es@) =~= before.update(
                                    i as int,
                                    (before[i as int].0, value),
                                ));
                                lemma_object_tree(es);
                                if tree_wf(doc.tree()) && edit_wf(e@) {
                                    lemma_with_child_wf(doc.tree(), i as int, value);
                                }
                            }
                            Ok(Json::Object(es))
                        },
                    }
                },
            }
        },
        Json::Array(mut vs) => {
            proof {
                lemma_array_tree(vs);
            }
            if last {
                return edit_array(vs, token, e);
            }
            let ghost before = trees(vs@);
            let i = match parse_usize(token) {
                None => {
                    return Err(PatchFault::BadIndex);
                },
                Some(i) => i,
            };
            if i >= vs.len() {
                return Err(PatchFault::MissingElement);
            }
            let inner = vs.remove(i);
            proof {
                if tree_wf(doc.tree()) {
                    lemma_child_wf(doc.tree(), i as int);
                }
            }
            match edit_from(inner, ts, at + 1, e) {
                Err(f) => Err(f),
                Ok(c) => {
                    let ghost value = c.tree();
                    vs.insert(i, c);
                    proof {
                        assert(trees(vs@) =~= before.update(i as int, value));
                        lemma_array_tree(vs);
                        if tree_wf(doc.tree()) && edit_wf(e@) {
                            lemma_with_child_wf(doc.tree(), i as int, value);
                        }
                    }
                    Ok(Json::Array(vs))
                },
            }
        },
        _ => Err(PatchFault::NotAContainer),
    }
}

fn edit_at(doc: Json, path: &str, e: Edit) -> (r: Result<Json, PatchFault>)
    ensures
        edit_result(r) == edited_at(doc.tree(), path@, e@),
        tree_wf(doc.tree()) && edit_wf(e@) ==> (r matches Ok(d) ==> tree_wf(d.tree())),
{
    match parse_pointer(path) {
        None => Err(PatchFault::PointerWithoutSlash),
        Some(ts) => {
            assert(texts(ts@).skip(0) =~= texts(ts@));
            edit_from(doc, &ts, 0, e)
        },
    }
}

/// Write a value at a pointer: an addition inserts into an array, and any other writing replaces
/// what is there.
pub fn set_at_path(doc: Json, path: &str, value: Json, is_add: bool) -> (r: Result<
    Json,
    PatchFault,
>)
    ensures
        edit_result(r) == edited_at(
            doc.tree(),
            path@,
            if is_add {
                EditTree::Add(value.tree())
            } else {
                EditTree::Replace(value.tree())
            },
        ),
        tree_wf(doc.tree()) && tree_wf(value.tree()) ==> (r matches Ok(d) ==> tree_wf(d.tree())),
{
    let e = if is_add {
        Edit::Add(value)
    } else {
        Edit::Replace(value)
    };
    edit_at(doc, path, e)
}

/// Remove what a pointer points to.
pub fn remove_at_path(doc: Json, path: &str) -> (r: Result<Json, PatchFault>)
    ensures
        edit_result(r) == edited_at(doc.tree(), path@, EditTree::Remove),
        tree_wf(doc.tree()) ==> (r matches Ok(d) ==> tree_wf(d.tree())),
{
    edit_at(doc, path, Edit::Remove)
}

/// Whether the place that some tokens lead to is new: below the document, and no member that is
/// there already.
pub open spec fn is_new_place(doc: JsonTree, ts: Seq<Seq<char>>) -> bool
    decreases ts.len(),
{
    if ts.len() == 0 {
        false
    } else if ts.len() == 1 {
        doc matches JsonTree::Object(es) ==> !has_member(es, ts[0])
    } else {
        child_index(doc, ts[0]) matches Ok(i) && is_new_place(child(doc, i), ts.skip(1))
    }
}

proof fn lemma_same_keys(es: Members, fs: Members, key: Seq<char>)
    requires
        es.len() == fs.len(),
        forall|i: int| 0 <= i < es.len() ==> (#[trigger] es[i]).0 == fs[i].0,
    ensures
        member_index(es, key) == member_index(fs, key),
    decreases es.len(),
{
    if es.len() > 0 {
        let es0 = es.drop_last();
        let fs0 = fs.drop_last();
        assert forall|i: int| 0 <= i < es0.len() implies (#[trigger] es0[i]).0 == fs0[i].0 by {
            assert(es0[i] == es[i]);
        }
        lemma_same_keys(es0, fs0, key);
    }
}

proof fn lemma_undone(doc: JsonTree, ts: Seq<Seq<char>>, v: JsonTree)
    requires
        is_new_place(doc, ts),
        edited(doc, ts, EditTree::Add(v)) is Ok,
    ensures
        edited(edited(doc, ts, EditTree::Add(v))->Ok_0, ts, EditTree::Remove) == Ok::<
            JsonTree,
            PatchFault,
        >(doc),
    decreases ts.len(),
{
    let added = edited(doc, ts, EditTree::Add(v))->Ok_0;
    if ts.len() == 1 {
        match doc {
            JsonTree::Object(es) => {
                let out = es.push((ts[0], v));
                assert(added == JsonTree::Object(out));
                assert(out.drop_last() =~= es);
                assert(member_index(out, ts[0]) == es.len());
                assert(member_removed(out, es.len() as int) =~= es);
            },
            JsonTree::Array(items) => {
                let i = token_index(ts[0])->0;
                assert(items.insert(i as int, v).remove(i as int) =~= items);
            },
            _ => {},
        }
    } else {
        let i = child_index(doc, ts[0])->Ok_0;
        let c = edited(child(doc, i), ts.skip(1), EditTree::Add(v))->Ok_0;
        lemma_undone(child(doc, i), ts.skip(1), v);
        match doc {
            JsonTree::Object(es) => {
                lemma_member_index(es, ts[0]);
                let out = es.update(i, (es[i].0, c));
                lemma_same_keys(es, out, ts[0]);
                assert(out.update(i, (out[i].0, es[i].1)) =~= es);
            },
            JsonTree::Array(items) => {
                let out = items.update(i, c);
                assert(out.update(i, items[i]) =~= items);
            },
            _ => {},
        }
    }
}

/// Removing undoes adding: after an addition at a new place, removing what is there gives the
/// document back.
pub proof fn removing_undoes_adding(doc: JsonTree, path: Seq<char>, v: JsonTree)
    requires
        tokens(path) matches Some(ts) && is_new_place(doc, ts),
        edited_at(doc, path, EditTree::Add(v)) is Ok,
    ensures
        edited_at(
            edited_at(doc, path, EditTree::Add(v))->Ok_0,
            path,
            EditTree::Remove,
        ) == Ok::<JsonTree, PatchFault>(doc),
{
    lemma_undone(doc, tokens(path)->0, v);
}

/// What a document holds at a place, by the tokens that lead to it.
pub open spec fn held_at(doc: JsonTree, ts: Seq<Seq<char>>) -> Option<JsonTree>
    decreases ts.len(),
{
    if ts.len() == 0 {
        Some(doc)
    } else {
        match doc {
            JsonTree::Object(es) => if has_member(es, ts[0]) {
                held_at(es[member_index(es, ts[0])].1, ts.skip(1))
            } else {
                None
            },
            JsonTree::Array(items) => match parsed_number(ts[0], usize::MAX as nat) {
                Some(i) => if i < items.len() {
                    held_at(items[i as int], ts.skip(1))
                } else {
                    None
                },
                None => None,
            },
            _ => None,
        }
    }
}

proof fn lemma_set_member(es: Members, key: Seq<char>, v: JsonTree, other: Seq<char>)
    ensures
        has_member(member_set(es, key, v), key),
        member_set(es, key, v)[member_index(member_set(es, key, v), key)].1 == v,
        other != key ==> has_member(member_set(es, key, v), other) == has_member(es, other),
        other != key && has_member(es, other) ==> member_set(es, key, v)[member_index(
            member_set(es, key, v),
            other,
        )].1 == es[member_index(es, other)].1,
{
    let out = member_set(es, key, v);
    lemma_member_index(es, key);
    lemma_member_index(es, other);
    lemma_member_index(out, key);
    lemma_member_index(out, other);
    if has_member(es, key) {
        lemma_same_keys(es, out, key);
        lemma_same_keys(es, out, other);
    } else {
        assert(out.drop_last() =~= es);
    }
}

/// After an addition or a replacement the document holds the value at the place, whatever it held
/// there before.
pub proof fn edits_are_read_back(doc: JsonTree, ts: Seq<Seq<char>>, e: EditTree)
    requires
        edited(doc, ts, e) is Ok,
    ensures
        e matches EditTree::Add(v) ==> held_at(edited(doc, ts, e)->Ok_0, ts) == Some(v),
        e matches EditTree::Replace(v) ==> held_at(edited(doc, ts, e)->Ok_0, ts) == Some(v),
    decreases ts.len(),
{
    let d = edited(doc, ts, e)->Ok_0;
    if ts.len() == 1 {
        assert(ts.skip(1) =~= Seq::empty());
        match doc {
            JsonTree::Object(es) => match e {
                EditTree::Add(v) => lemma_set_member(es, ts[0], v, ts[0]),
                EditTree::Replace(v) => lemma_set_member(es, ts[0], v, ts[0]),
                EditTree::Remove => {},
            },
            _ => {},
        }
    } else if ts.len() > 1 {
        let i = child_index(doc, ts[0])->Ok_0;
        edits_are_read_back(child(doc, i), ts.skip(1), e);
        if let JsonTree::Object(es) = doc {
            lemma_member_index(es, ts[0]);
            let c = edited(child(doc, i), ts.skip(1), e)->Ok_0;
            lemma_same_keys(es, es.update(i, (es[i].0, c)), ts[0]);
        }
    }
}

/// Something can be removed exactly where the document holds it, and is not the document itself.
/// Something can be added or replaced where its parent is there: always where that is an object, or
/// where there is no parent; in an array up to its end where it is added, and where an element is
/// there where it is replaced.
pub proof fn edits_succeed_where_they_fit(doc: JsonTree, ts: Seq<Seq<char>>, v: JsonTree)
    ensures
        edited(doc, ts, EditTree::Remove) is Ok <==> ts.len() > 0 && held_at(doc, ts) is Some,
        edited(doc, ts, EditTree::Replace(v)) is Ok <==> ts.len() == 0 || (held_at(
            doc,
            ts.drop_last(),
        ) matches Some(parent) && (parent is Object || held_at(doc, ts) is Some)),
        edited(doc, ts, EditTree::Add(v)) is Ok <==> ts.len() == 0 || (held_at(
            doc,
            ts.drop_last(),
        ) matches Some(parent) && (parent is Object || (parent matches JsonTree::Array(items) && (
        parsed_number(ts.last(), usize::MAX as nat) matches Some(i) && i <= items.len())))),
    decreases ts.len(),
{
    if ts.len() == 1 {
        assert(ts.drop_last() =~= Seq::empty());
        assert(ts.skip(1) =~= Seq::empty());
        if let JsonTree::Object(es) = doc {
            lemma_member_index(es, ts[0]);
        }
    } else if ts.len() > 1 {
        assert(ts.drop_last().skip(1) =~= ts.skip(1).drop_last());
        assert(ts.drop_last()[0] == ts[0]);
        assert(ts.skip(1).last() == ts.last());
        if let Ok(i) = child_index(doc, ts[0]) {
            edits_succeed_where_they_fit(child(doc, i), ts.skip(1), v);
        }
    }
}

/// An edit inside a member of an object, or of the member itself, leaves every other member as it
/// was.
pub proof fn edits_leave_other_members(
    es: Members,
    ts: Seq<Seq<char>>,
    e: EditTree,
    other: Seq<char>,
)
    requires
        tree_wf(JsonTree::Object(es)),
        ts.len() > 0,
        other != ts[0],
        edited(JsonTree::Object(es), ts, e) is Ok,
    ensures
        edited(JsonTree::Object(es), ts, e)->Ok_0 matches JsonTree::Object(out) && has_member(
            out,
            other,
        ) == has_member(es, other) && (has_member(es, other) ==> out[member_index(out, other)].1
            == es[member_index(es, other)].1),
{
    let out = edited(JsonTree::Object(es), ts, e)->Ok_0->Object_0;
    lemma_member_index(es, ts[0]);
    lemma_member_index(es, other);
    lemma_member_index(out, other);
    assert(distinct_keys(es));
    if ts.len() == 1 {
        match e {
            EditTree::Add(v) => lemma_set_member(es, ts[0], v, other),
            EditTree::Replace(v) => lemma_set_member(es, ts[0], v, other),
            EditTree::Remove => {
                let k = member_index(es, ts[0]);
                assert(out == member_removed(es, k));
                if has_member(es, other) {
                    let i = member_index(es, other);
                    if i == es.len() - 1 {
                        assert(out[k] == es[i]);
                    } else {
                        assert(out[i] == es[i]);
                    }
                }
                lemma_member_removed_wf(es, k);
                assert(distinct_keys(out));
                if has_member(out, other) {
                    let j = member_index(out, other);
                    if j == k {
                        assert(out[j] == es[es.len() - 1]);
                    } else {
                        assert(out[j] == es[j]);
                    }
                }
            },
        }
    } else {
        let i = member_index(es, ts[0]);
        let c = edited(es[i].1, ts.skip(1), e)->Ok_0;
        assert(out == es.update(i, (es[i].0, c)));
        lemma_same_keys(es, out, other);
    }
}

/// An edit inside an element of an array leaves every other element as it was. An element that is
/// added moves those from its place on up by one, one that is removed moves those behind it down by
/// one, and one that is replaced moves none.
pub proof fn edits_leave_other_elements(
    items: Seq<JsonTree>,
    ts: Seq<Seq<char>>,
    e: EditTree,
    at: nat,
    j: int,
)
    requires
        ts.len() > 0,
        parsed_number(ts[0], usize::MAX as nat) == Some(at),
        edited(JsonTree::Array(items), ts, e) is Ok,
        0 <= j < items.len(),
    ensures
        edited(JsonTree::Array(items), ts, e)->Ok_0 matches JsonTree::Array(out) && {
            &&& j < at ==> out[j] == items[j]
            &&& ts.len() > 1 || e is Replace ==> out.len() == items.len() && (j > at ==> out[j]
                == items[j])
            &&& ts.len() == 1 && e is Add ==> out.len() == items.len() + 1 && (j >= at ==> out[j + 1]
                == items[j])
            &&& ts.len() == 1 && e is Remove ==> out.len() == items.len() - 1 && (j > at ==> out[j
                - 1] == items[j])
        },
{
}

/// What is said of an edit that does not fit: the document itself cannot be removed; a token leads
/// nowhere in what is no container; a token that leads into an array must be a number; and what is
/// not there is told apart from what lies too far beyond the end for an addition.
pub proof fn misfits_are_told_why(doc: JsonTree, ts: Seq<Seq<char>>, e: EditTree)
    ensures
        ts.len() == 0 && e is Remove ==> edited(doc, ts, e) == Err::<JsonTree, PatchFault>(
            PatchFault::CannotRemoveRoot,
        ),
        ts.len() > 0 && !(doc is Object) && !(doc is Array) ==> edited(doc, ts, e) == Err::<
            JsonTree,
            PatchFault,
        >(PatchFault::NotAContainer),
        doc matches JsonTree::Object(es) ==> ts.len() > 0 && !has_member(es, ts[0]) && (ts.len() > 1
            || e is Remove) ==> edited(doc, ts, e) == Err::<JsonTree, PatchFault>(
            PatchFault::MissingMember,
        ),
        doc is Array && ts.len() > 0 && parsed_number(ts[0], usize::MAX as nat) is None ==> edited(
            doc,
            ts,
            e,
        ) == Err::<JsonTree, PatchFault>(PatchFault::BadIndex),
        doc matches JsonTree::Array(items) ==> ts.len() > 0 ==> (parsed_number(
            ts[0],
            usize::MAX as nat,
        ) matches Some(i) ==> {
            &&& i >= items.len() && (ts.len() > 1 || !(e is Add)) ==> edited(doc, ts, e) == Err::<
                JsonTree,
                PatchFault,
            >(PatchFault::MissingElement)
            &&& i > items.len() && ts.len() == 1 && e is Add ==> edited(doc, ts, e) == Err::<
                JsonTree,
                PatchFault,
            >(PatchFault::AddOutOfBounds)
        }),
{
}

/// An edit at a pointer is one at the tokens of the pointer, and a pointer that has none is said to
/// lack its slash.
pub proof fn pointers_lead_to_places(doc: JsonTree, path: Seq<char>, e: EditTree)
    ensures
        path.len() > 0 && path[0] != '/' ==> edited_at(doc, path, e) == Err::<JsonTree, PatchFault>(
            PatchFault::PointerWithoutSlash,
        ),
        path.len() == 0 || path[0] == '/' ==> (tokens(path) matches Some(ts) && edited_at(
            doc,
            path,
            e,
        ) == edited(doc, ts, e)),
        path.len() == 0 ==> tokens(path) == Some(Seq::<Seq<char>>::empty()),
{
}

/// After a value was set at a path the document holds it there. In an array an addition moves what
/// was there up, and a replacement takes its place.
pub proof fn set_values_are_held(
    doc: Json,
    path: &str,
    value: Json,
    is_add: bool,
    out: Result<Json, PatchFault>,
)
    requires
        call_ensures(set_at_path, (doc, path, value, is_add), out),
    ensures
        out matches Ok(d) ==> (tokens(path@) matches Some(ts) && held_at(d.tree(), ts) == Some(
            value.tree(),
        )),
        out matches Ok(d) ==> (doc.tree() matches JsonTree::Array(items) ==> tokens(path@)->0.len()
            == 1 ==> (d.tree() matches JsonTree::Array(after) && after.len() == items.len() + if is_add {
            1int
        } else {
            0
        })),
        path@.len() > 0 && path@[0] != '/' ==> out == Err::<Json, PatchFault>(
            PatchFault::PointerWithoutSlash,
        ),
        path@.len() == 0 ==> out is Ok,
{
    let e = if is_add {
        EditTree::Add(value.tree())
    } else {
        EditTree::Replace(value.tree())
    };
    if out is Ok {
        edits_are_read_back(doc.tree(), tokens(path@)->0, e);
    }
}

/// What is held at a path can be removed from it, and nothing else can; the document itself stays.
pub proof fn held_values_are_removed(doc: Json, path: &str, out: Result<Json, PatchFault>)
    requires
        call_ensures(remove_at_path, (doc, path), out),
    ensures
        out is Ok <==> path@.len() > 0 && (tokens(path@) matches Some(ts) && held_at(doc.tree(), ts)
            is Some),
{
    if let Some(ts) = tokens(path@) {
        edits_succeed_where_they_fit(doc.tree(), ts, JsonTree::Null);
        if path@.len() > 0 {
            lemma_pieces_nonempty(path@.skip(1), '/');
        }
    }
}

} // verus!
