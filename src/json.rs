//! Reading single fields out of one JSON value text.
use vstd::prelude::*;

verus! {

/// What a JSON pointer addresses inside a parsed value.
pub enum JsonLeaf {
    /// No value at that pointer.
    Missing,
    Null,
    Text(String),
    /// A boolean, number, array or object.
    Other,
}

/// The view of a leaf: string contents as characters.
pub enum LeafView {
    Missing,
    Null,
    Text(Seq<char>),
    Other,
}

impl JsonLeaf {
    pub open spec fn view(&self) -> LeafView {
        match self {
            JsonLeaf::Missing => LeafView::Missing,
            JsonLeaf::Null => LeafView::Null,
            JsonLeaf::Text(s) => LeafView::Text(s@),
            JsonLeaf::Other => LeafView::Other,
        }
    }
}

pub open spec fn opt_leaf_view(o: Option<JsonLeaf>) -> Option<LeafView> {
    match o {
        Some(l) => Some(l.view()),
        None => None,
    }
}

/// The leaf at `pointer` inside the JSON text `frame`; `None` when `frame`
/// is not one well-formed JSON value.
pub uninterp spec fn json_pointer_leaf(frame: Seq<u8>, pointer: Seq<char>) -> Option<LeafView>;

/// Relies on serde_json::from_slice to parse `frame` as a single JSON value,
/// and on serde_json::Value::pointer to look up the RFC 6901 `pointer` in it.
#[verifier::external_body]
pub(crate) fn json_lookup(frame: &[u8], pointer: &str) -> (r: Option<JsonLeaf>)
    ensures
        opt_leaf_view(r) == json_pointer_leaf(frame@, pointer@),
{
    match serde_json::from_slice::<serde_json::Value>(frame) {
        Err(_) => None,
        Ok(v) => Some(match v.pointer(pointer) {
            None => JsonLeaf::Missing,
            Some(serde_json::Value::Null) => JsonLeaf::Null,
            Some(serde_json::Value::String(s)) => JsonLeaf::Text(s.clone()),
            Some(serde_json::Value::Bool(_)) => JsonLeaf::Other,
            Some(serde_json::Value::Number(_)) => JsonLeaf::Other,
            Some(serde_json::Value::Array(_)) => JsonLeaf::Other,
            Some(serde_json::Value::Object(_)) => JsonLeaf::Other,
        }),
    }
}

} // verus!
