//! The statements the database-backed manager runs, besides a filter's own
//! (see `ToSql`). Parameters are bound in the order `$1`, `$2`, ...
use vstd::prelude::*;

use crate::query::ReservationQuery;

verus! {

/// Inserts a reservation and returns its id; binds resource id, user id,
/// interval, note and status name.
pub const INSERT_SQL: &'static str = "INSERT INTO rsvp.reservations (resource_id, user_id, timespan, note, status) VALUES ($1, $2, $3, $4, $5::rsvp.reservation_status) RETURNING id";

/// Confirms a pending reservation and returns the row; binds the id.
pub const CONFIRM_SQL: &'static str = "UPDATE rsvp.reservations SET status = CASE WHEN status = 'pending' THEN 'confirmed' ELSE status END WHERE id = $1 RETURNING *";

/// Sets the note of a reservation and returns the row; binds the id and the note.
pub const UPDATE_NOTE_SQL: &'static str = "UPDATE rsvp.reservations SET note = $2 WHERE id = $1 RETURNING *";

/// Deletes a reservation and returns the deleted row; binds the id.
pub const DELETE_SQL: &'static str = "DELETE FROM rsvp.reservations WHERE id = $1 RETURNING *";

/// Reads one reservation; binds the id.
pub const GET_SQL: &'static str = "SELECT * FROM rsvp.reservations WHERE id = $1";

/// A time-window read in ascending id order; binds user id (empty for any),
/// resource id (empty for any), status name (null for any) and the window.
pub const QUERY_ASC_SQL: &'static str = "SELECT * FROM rsvp.reservations WHERE ($1 = '' OR user_id = $1) AND ($2 = '' OR resource_id = $2) AND ($3::text IS NULL OR status = $3::rsvp.reservation_status) AND timespan <@ $4 ORDER BY id ASC";

/// The same read in descending id order.
pub const QUERY_DESC_SQL: &'static str = "SELECT * FROM rsvp.reservations WHERE ($1 = '' OR user_id = $1) AND ($2 = '' OR resource_id = $2) AND ($3::text IS NULL OR status = $3::rsvp.reservation_status) AND timespan <@ $4 ORDER BY id DESC";

impl ReservationQuery {
    /// The statement that reads this query's rows in its direction.
    pub fn statement(&self) -> (r: &'static str)
        ensures
            r@ == (if self.desc {
                QUERY_DESC_SQL@
            } else {
                QUERY_ASC_SQL@
            }),
    {
        if self.desc {
            QUERY_DESC_SQL
        } else {
            QUERY_ASC_SQL
        }
    }
}

} // verus!
