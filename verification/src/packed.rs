//! Packed values: the JSON text of a value, as it is kept and compared.

use vstd::prelude::*;
use vstd::string::*;
use crate::json_text::print_json;
use crate::value::{is_text_of, ConvexValue};

verus! {

/// The JSON text of a value.
pub struct JsonPackedValue {
    text: String,
}

impl View for JsonPackedValue {
    type V = Seq<char>;

    closed spec fn view(&self) -> Seq<char> {
        self.text@
    }
}

impl JsonPackedValue {
    /// Pack a value. The text reads as the JSON of the value, and stands for the value again.
    pub fn pack(value: &ConvexValue) -> (r: JsonPackedValue)
        ensures
            is_text_of(r@, value.tree()),
    {
        JsonPackedValue { text: print_json(&value.to_internal_json()) }
    }

    /// The text.
    pub fn as_str(&self) -> (r: &str)
        ensures
            r@ == self@,
    {
        self.text.as_str()
    }
}

} // verus!
