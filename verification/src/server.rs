//! The remote validation procedure: accepts small ids, rejects the rest.
use vstd::prelude::*;

verus! {

/// The typed failure returned by the validation procedure for an
/// out-of-range id. Its message is fixed.
#[derive(Clone, Copy, Debug, PartialEq, Eq, Structural)]
pub struct ServerError;

impl ServerError {
    /// The failure text shown for an invalid id.
    pub fn message(&self) -> (r: String)
        ensures
            r@ == server_error_text(),
    {
        String::from_str("id is invalid")
    }
}

/// The text carried by every `ServerError`.
pub open spec fn server_error_text() -> Seq<char> {
    "id is invalid"@
}

/// The text returned by the validation procedure on success.
pub open spec fn server_success_text() -> Seq<char> {
    "Success"@
}

/// Whether the validation procedure accepts an id.
pub open spec fn id_is_valid(id: i32) -> bool {
    id <= 5
}

/// Validates an id: ids up to five succeed with a fixed success text,
/// larger ids fail with `ServerError`.
pub fn server(id: i32) -> (r: Result<String, ServerError>)
    ensures
        id_is_valid(id) <==> r is Ok,
        r is Ok ==> r->Ok_0@ == server_success_text(),
        r is Err ==> r->Err_0 == ServerError,
{
    if id > 5 {
        Err(ServerError)
    } else {
        Ok(String::from_str("Success"))
    }
}

} // verus!
