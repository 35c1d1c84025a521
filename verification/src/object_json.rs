//! Writing and reading an object as JSON.

use vstd::prelude::*;
use crate::json::{tree_wf, Json};
use crate::value::{decoded, encoded, stands_for, ConvexObject, ValueError, ValueFault};

verus! {

/// Write an object as JSON.
pub fn serialize(object: &ConvexObject) -> (r: Json)
    ensures
        r.tree() == encoded(object.tree()),
        tree_wf(r.tree()),
        stands_for(r.tree(), object.tree()),
{
    object.to_internal_json()
}

/// Read an object from JSON.
pub fn deserialize(value: Json) -> (r: Result<ConvexObject, ValueError>)
    requires
        tree_wf(value.tree()),
    ensures
        match (r, decoded(value.tree())) {
            (Ok(o), Ok(v)) => o.tree() == v,
            (Err(e), Ok(v)) => !(v is Object) && e@ == ValueFault::NotAnObject,
            (Err(e), Err(f)) => e@ == f,
            _ => false,
        },
{
    ConvexObject::try_from(value)
}

/// An object that is written as JSON is read back as that object.
pub proof fn written_objects_are_read_back(
    object: ConvexObject,
    json: Json,
    read: Result<ConvexObject, ValueError>,
)
    requires
        call_ensures(serialize, (&object,), json),
        call_ensures(deserialize, (json,), read),
    ensures
        read matches Ok(o) && o.tree() == object.tree(),
{
}

} // verus!
