//! Request-level values: the incoming query and the failure kinds.

use vstd::prelude::*;

verus! {

/// The free-text query of a listing request.
pub struct Query {
    pub q: String,
}

/// Why a request could not be answered. Each one ends the request.
pub enum PlebisError {
    /// The engine call failed (transport or engine-side rejection).
    Db(String),
    /// The engine's response did not have the expected shape.
    DataError(String),
    /// The assembled page could not be turned into the templating value.
    DataConversionError(String),
    /// The templating layer failed.
    RenderError(String),
    /// A lookup by identifier found no report; holds the identifier.
    NotFound(String),
    /// A lookup by identifier found more than one report; holds the identifier.
    Ambiguous(String),
}

} // verus!
