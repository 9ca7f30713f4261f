use vstd::prelude::*;

use crate::conflict::{conflict_info_of, ReservationConflictInfo};
use crate::text::str_eq;

verus! {

/// Every way an operation of the engine can fail.
#[derive(Clone, Debug, PartialEq, Eq)]
pub enum Error {
    /// A storage fault other than a conflict or a missing row, with its message.
    DbError(String),
    ConfigReadError,
    ConfigParseError,
    InvalidUserId(String),
    InvalidResourceId(String),
    InvalidReservationId(i64),
    ConflictReservation(ReservationConflictInfo),
    Unknown,
    InvalidTime,
    InvalidStatus(i32),
    InvalidPageSize(i64),
    InvalidCursor(i64),
    NotFound,
}

/// The transport status code an error is reported with.
#[derive(Clone, Copy, Debug, PartialEq, Eq, Structural)]
pub enum StatusCode {
    InvalidArgument,
    FailedPrecondition,
    NotFound,
    Internal,
    Unknown,
}

/// The transport code for each kind of error.
pub open spec fn code_of(e: Error) -> StatusCode {
    match e {
        Error::InvalidTime | Error::InvalidPageSize(_) | Error::InvalidCursor(_)
        | Error::InvalidStatus(_) | Error::InvalidUserId(_) | Error::InvalidResourceId(_)
        | Error::InvalidReservationId(_) => StatusCode::InvalidArgument,
        Error::ConflictReservation(_) => StatusCode::FailedPrecondition,
        Error::NotFound => StatusCode::NotFound,
        Error::DbError(_) | Error::ConfigReadError | Error::ConfigParseError => StatusCode::Internal,
        Error::Unknown => StatusCode::Unknown,
    }
}

/// A failure reported by the store, as plain values.
#[derive(Clone, Debug, PartialEq, Eq)]
pub enum StoreFault {
    /// A statement that had to return a row returned none.
    RowNotFound,
    /// The database refused a statement.
    Database {
        code: String,
        schema: Option<String>,
        table: Option<String>,
        detail: Option<String>,
        message: String,
    },
    /// Any other failure, with its message.
    Other(String),
}

/// Whether a database refusal is the exclusion rule of the reservations table.
pub open spec fn is_exclusion_violation(
    code: Seq<char>,
    schema: Option<Seq<char>>,
    table: Option<Seq<char>>,
) -> bool {
    code == "23P01"@ && schema == Some("rsvp"@) && table == Some("reservations"@)
}

/// The view of an optional string.
pub open spec fn opt_view(s: Option<String>) -> Option<Seq<char>> {
    match s {
        Some(v) => Some(v@),
        None => None,
    }
}

/// The error a store failure is reported as: an exclusion violation on the
/// reservations table becomes a conflict read from the diagnostic (an absent
/// diagnostic reads as empty), a missing row becomes `NotFound`, anything else
/// a `DbError` with the failure's message.
pub open spec fn fault_error(f: StoreFault, e: Error) -> bool {
    match f {
        StoreFault::RowNotFound => e == Error::NotFound,
        StoreFault::Database { code, schema, table, detail, message } => if is_exclusion_violation(
            code@,
            opt_view(schema),
            opt_view(table),
        ) {
            &&& e matches Error::ConflictReservation(info)
            &&& conflict_info_of(
                e->ConflictReservation_0,
                match detail {
                    Some(d) => d@,
                    None => Seq::empty(),
                },
            )
        } else {
            e matches Error::DbError(m) && m@ == message@
        },
        StoreFault::Other(message) => e matches Error::DbError(m) && m@ == message@,
    }
}

fn opt_is(s: &Option<String>, lit: &str) -> (r: bool)
    ensures
        r == (opt_view(*s) == Some(lit@)),
{
    match s {
        Some(v) => str_eq(v.as_str(), lit),
        None => false,
    }
}

impl Error {
    /// Classifies a failure of the store.
    pub fn from_store_fault(f: StoreFault) -> (r: Error)
        ensures
            fault_error(f, r),
    {
        match f {
            StoreFault::RowNotFound => Error::NotFound,
            StoreFault::Database { code, schema, table, detail, message } => {
                if str_eq(code.as_str(), "23P01") && opt_is(&schema, "rsvp") && opt_is(
                    &table,
                    "reservations",
                ) {
                    let text = match detail {
                        Some(d) => d,
                        None => String::new(),
                    };
                    Error::ConflictReservation(ReservationConflictInfo::parse(text.as_str()))
                } else {
                    Error::DbError(message)
                }
            },
            StoreFault::Other(message) => Error::DbError(message),
        }
    }

    /// The transport status code under which this error is reported.
    pub fn status_code(&self) -> (r: StatusCode)
        ensures
            r == code_of(*self),
    {
        match self {
            Error::InvalidTime => StatusCode::InvalidArgument,
            Error::InvalidPageSize(_) => StatusCode::InvalidArgument,
            Error::InvalidCursor(_) => StatusCode::InvalidArgument,
            Error::InvalidStatus(_) => StatusCode::InvalidArgument,
            Error::InvalidUserId(_) => StatusCode::InvalidArgument,
            Error::InvalidResourceId(_) => StatusCode::InvalidArgument,
            Error::InvalidReservationId(_) => StatusCode::InvalidArgument,
            Error::ConflictReservation(_) => StatusCode::FailedPrecondition,
            Error::NotFound => StatusCode::NotFound,
            Error::DbError(_) => StatusCode::Internal,
            Error::ConfigReadError => StatusCode::Internal,
            Error::ConfigParseError => StatusCode::Internal,
            Error::Unknown => StatusCode::Unknown,
        }
    }
}

} // verus!
