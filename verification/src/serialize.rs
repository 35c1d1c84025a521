//! Writing a value where it can be walked only once.

use vstd::prelude::*;
use crate::json::{tree_wf, Json};
use crate::value::{encoded, stands_for, ConvexValue, ValueTree};

verus! {

/// A value that is handed out for writing once.
pub struct SerializeValue {
    value: Option<ConvexValue>,
}

/// The value was written before.
#[derive(Debug, Clone, Copy, PartialEq, Eq, Structural)]
pub struct SerializedTwice;

impl View for SerializeValue {
    type V = Option<ValueTree>;

    closed spec fn view(&self) -> Option<ValueTree> {
        match self.value {
            Some(v) => Some(v.tree()),
            None => None,
        }
    }
}

impl SerializeValue {
    /// Hold a value for writing.
    pub fn new(value: ConvexValue) -> (r: SerializeValue)
        ensures
            r@ == Some(value.tree()),
    {
        SerializeValue { value: Some(value) }
    }

    /// Write the value that is held, which is then gone.
    pub fn serialize(&mut self) -> (r: Result<Json, SerializedTwice>)
        ensures
            match old(self)@ {
                Some(v) => r matches Ok(j) && j.tree() == encoded(v) && tree_wf(j.tree()),
                None => r == Err::<Json, SerializedTwice>(SerializedTwice),
            },
            final(self)@ is None,
    {
        match self.value.take() {
            Some(v) => Ok(serialize(&v)),
            None => Err(SerializedTwice),
        }
    }
}

/// Write a value as JSON.
pub fn serialize(value: &ConvexValue) -> (r: Json)
    ensures
        r.tree() == encoded(value.tree()),
        tree_wf(r.tree()),
        stands_for(r.tree(), value.tree()),
{
    value.to_internal_json()
}

/// A value is serialized once: what comes out stands for it, and then nothing is left.
pub proof fn values_are_serialized_once(
    value: ConvexValue,
    s: &mut SerializeValue,
    first: Result<Json, SerializedTwice>,
    left: &mut SerializeValue,
    second: Result<Json, SerializedTwice>,
)
    requires
        call_ensures(SerializeValue::new, (value,), *s),
        call_ensures(SerializeValue::serialize, (s,), first),
        *left == *final(s),
        call_ensures(SerializeValue::serialize, (left,), second),
    ensures
        first matches Ok(j) && j.tree() == encoded(value.tree()),
        second is Err,
{
}

} // verus!
