//! Named values written out as one JSON object.

use vstd::prelude::*;

verus! {

/// The text of the JSON object whose members are `pairs`, each value a JSON
/// string.
pub uninterp spec fn json_object(pairs: Seq<(Seq<char>, Seq<char>)>) -> Seq<char>;

/// Calls `serde_json::Value::to_string` on the object made of `pairs`: the
/// result is the compact text of that object, the same for the same pairs.
#[verifier::external_body]
pub(crate) fn object_text(pairs: &Vec<(String, String)>) -> (s: String)
    ensures
        s@ == json_object(Seq::new(pairs@.len(), |i: int| (pairs@[i].0@, pairs@[i].1@))),
{
    let mut object = serde_json::Map::new();
    for pair in pairs.iter() {
        object.insert(pair.0.clone(), serde_json::Value::String(pair.1.clone()));
    }
    serde_json::Value::Object(object).to_string()
}

/// A value that can be written out as JSON.
pub trait ToJsonString {
    /// The JSON text of the value.
    spec fn json(&self) -> Seq<char>;

    /// Converts the value of `self` to JSON text.
    fn tojson(&self) -> (s: String)
        ensures
            s@ == self.json(),
    ;
}

} // verus!
