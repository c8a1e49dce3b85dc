use vstd::prelude::*;

use vstd::string::StringExecFns;

verus! {

/// Every way a query request can fail.
#[derive(Debug, Clone, PartialEq)]
pub enum RequestError {
    /// The query text was not valid percent-encoded UTF-8.
    InvalidInput,
    /// The database rejected the statement; carries the database's message.
    SqlError(String),
    /// No session or transaction could be obtained, or the session broke.
    Connection(String),
    /// The catalog reported a column without a name or a type.
    Schema,
    /// A cell of a numeric column is not a numeric literal; carries the cell.
    TypeConversion(String),
    /// The row matrix did not have the shape of the column list.
    Internal,
}

impl RequestError {
    /// True for the failures whose cause lies in the submitted query.
    pub fn is_client_error(&self) -> (r: bool)
        ensures
            r == (self is InvalidInput || self is SqlError),
    {
        match self {
            RequestError::InvalidInput => true,
            RequestError::SqlError(_) => true,
            _ => false,
        }
    }
}

/// The status code and message that a failure is reported with: the
/// client's faults with their cause, the database's message included; every
/// other failure as a bare internal error.
pub open spec fn reply_of(e: RequestError) -> (u16, Seq<char>) {
    match e {
        RequestError::InvalidInput => (400, "invalid query string"@),
        RequestError::SqlError(m) => (400, "SQL error: "@ + m@),
        _ => (500, "internal server error"@),
    }
}

/// The status code and message for a failure.
pub fn error_reply(e: &RequestError) -> (r: (u16, String))
    ensures
        r.0 == reply_of(*e).0,
        r.1@ == reply_of(*e).1,
{
    match e {
        RequestError::InvalidInput => (400, "invalid query string".to_owned()),
        RequestError::SqlError(m) => {
            let mut message = "SQL error: ".to_owned();
            message.append(m.as_str());
            (400, message)
        },
        _ => (500, "internal server error".to_owned()),
    }
}

} // verus!
