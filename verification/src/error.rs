use vstd::prelude::*;

verus! {

/// The API's error taxonomy: a caller's fault or the server's.
pub enum AppError {
    BadRequest(String),
    InternalServerError(String),
}

impl AppError {
    /// The message the error carries.
    pub open spec fn spec_message(&self) -> Seq<char> {
        match self {
            AppError::BadRequest(m) => m@,
            AppError::InternalServerError(m) => m@,
        }
    }

    /// The message the error carries, for the response body.
    pub fn message(&self) -> (m: &String)
        ensures
            m@ == self.spec_message(),
    {
        match self {
            AppError::BadRequest(m) => m,
            AppError::InternalServerError(m) => m,
        }
    }

    /// The HTTP status the error maps to: 400 for a bad request, 500 for a
    /// server error.
    pub fn status_code(&self) -> (code: u16)
        ensures
            self is BadRequest <==> code == 400,
            self is InternalServerError <==> code == 500,
    {
        match self {
            AppError::BadRequest(_) => 400,
            AppError::InternalServerError(_) => 500,
        }
    }
}

/// Reject an empty transaction signature before any lookup is attempted;
/// every non-empty signature passes.
pub fn validate_transaction_signature(signature: &String) -> (r: Result<(), AppError>)
    ensures
        signature@.len() > 0 <==> r is Ok,
        signature@.len() == 0 ==> (r matches Err(e) && e matches AppError::BadRequest(m) && m@
            == "Transaction signature cannot be empty"@),
{
    if signature.as_str().is_empty() {
        Err(AppError::BadRequest("Transaction signature cannot be empty".to_owned()))
    } else {
        Ok(())
    }
}

} // verus!
