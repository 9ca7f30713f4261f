use vstd::prelude::*;

verus! {

/// The status of a reservation as it travels on the wire. Its numeric code is
/// the position in this list: `Unknown` is 0, `Pending` 1, `Confirmed` 2,
/// `Blocked` 3.
#[derive(Clone, Copy, Debug, PartialEq, Eq, Hash, PartialOrd, Ord, Structural)]
pub enum ReservationStatus {
    Unknown,
    Pending,
    Confirmed,
    Blocked,
}

/// The status of a reservation as the store persists it.
#[derive(Clone, Copy, Debug, PartialEq, Eq, Hash, Structural)]
pub enum RsvpStatus {
    Pending,
    Blocked,
    Confirmed,
    Unknown,
}

pub const STATUS_UNKNOWN: i32 = 0;
pub const STATUS_PENDING: i32 = 1;
pub const STATUS_CONFIRMED: i32 = 2;
pub const STATUS_BLOCKED: i32 = 3;

/// The wire code of a status.
pub open spec fn status_code(s: ReservationStatus) -> i32 {
    match s {
        ReservationStatus::Unknown => 0,
        ReservationStatus::Pending => 1,
        ReservationStatus::Confirmed => 2,
        ReservationStatus::Blocked => 3,
    }
}

/// Whether a wire code names one of the four statuses.
pub open spec fn is_known_code(code: i32) -> bool {
    0 <= code <= 3
}

/// The status a wire code names, if any.
pub open spec fn status_of_code(code: i32) -> Option<ReservationStatus> {
    if code == 0 {
        Some(ReservationStatus::Unknown)
    } else if code == 1 {
        Some(ReservationStatus::Pending)
    } else if code == 2 {
        Some(ReservationStatus::Confirmed)
    } else if code == 3 {
        Some(ReservationStatus::Blocked)
    } else {
        None
    }
}

/// The lower-case name under which the store knows a status.
pub open spec fn status_name_of(s: ReservationStatus) -> Seq<char> {
    match s {
        ReservationStatus::Unknown => "unknown"@,
        ReservationStatus::Pending => "pending"@,
        ReservationStatus::Confirmed => "confirmed"@,
        ReservationStatus::Blocked => "blocked"@,
    }
}

/// The status that a persisted row takes for a requested wire code: the code's
/// own status when it is `Pending`, `Confirmed` or `Blocked`, else `Pending`.
pub open spec fn persisted_code(code: i32) -> i32 {
    if code == 1 || code == 2 || code == 3 {
        code
    } else {
        1
    }
}

/// The wire status that corresponds to a persisted status.
pub open spec fn wire_of(s: RsvpStatus) -> ReservationStatus {
    match s {
        RsvpStatus::Pending => ReservationStatus::Pending,
        RsvpStatus::Blocked => ReservationStatus::Blocked,
        RsvpStatus::Confirmed => ReservationStatus::Confirmed,
        RsvpStatus::Unknown => ReservationStatus::Unknown,
    }
}

impl ReservationStatus {
    /// The status with the given wire code, or `None` for a code outside 0..=3.
    pub fn from_i32(code: i32) -> (r: Option<ReservationStatus>)
        ensures
            r == status_of_code(code),
            r is Some <==> is_known_code(code),
            r matches Some(s) ==> status_code(s) == code,
    {
        if code == STATUS_UNKNOWN {
            Some(ReservationStatus::Unknown)
        } else if code == STATUS_PENDING {
            Some(ReservationStatus::Pending)
        } else if code == STATUS_CONFIRMED {
            Some(ReservationStatus::Confirmed)
        } else if code == STATUS_BLOCKED {
            Some(ReservationStatus::Blocked)
        } else {
            None
        }
    }

    /// The wire code of this status.
    pub fn code(&self) -> (r: i32)
        ensures
            r == status_code(*self),
            status_of_code(r) == Some(*self),
    {
        match self {
            ReservationStatus::Unknown => STATUS_UNKNOWN,
            ReservationStatus::Pending => STATUS_PENDING,
            ReservationStatus::Confirmed => STATUS_CONFIRMED,
            ReservationStatus::Blocked => STATUS_BLOCKED,
        }
    }

    /// The lower-case name of this status, as the store spells it.
    pub fn as_str_name(&self) -> (r: &'static str)
        ensures
            r@ == status_name_of(*self),
    {
        match self {
            ReservationStatus::Unknown => "unknown",
            ReservationStatus::Pending => "pending",
            ReservationStatus::Confirmed => "confirmed",
            ReservationStatus::Blocked => "blocked",
        }
    }
}

impl RsvpStatus {
    /// The persisted status for a requested wire code: that code's status when
    /// it is a state a row can hold, else `Pending`.
    pub fn for_insert(code: i32) -> (r: RsvpStatus)
        ensures
            status_code(wire_of(r)) == persisted_code(code),
    {
        if code == STATUS_CONFIRMED {
            RsvpStatus::Confirmed
        } else if code == STATUS_BLOCKED {
            RsvpStatus::Blocked
        } else {
            RsvpStatus::Pending
        }
    }
}

/// The wire code of the status a row is stored with for a requested code.
pub fn status_code_for_insert(code: i32) -> (r: i32)
    ensures
        r == persisted_code(code),
{
    if code == STATUS_CONFIRMED || code == STATUS_BLOCKED {
        code
    } else {
        STATUS_PENDING
    }
}

impl From<RsvpStatus> for ReservationStatus {
    fn from(s: RsvpStatus) -> (r: ReservationStatus)
        ensures
            r == wire_of(s),
    {
        match s {
            RsvpStatus::Pending => ReservationStatus::Pending,
            RsvpStatus::Blocked => ReservationStatus::Blocked,
            RsvpStatus::Confirmed => ReservationStatus::Confirmed,
            RsvpStatus::Unknown => ReservationStatus::Unknown,
        }
    }
}

impl vstd::std_specs::convert::FromSpecImpl<RsvpStatus> for ReservationStatus {
    open spec fn obeys_from_spec() -> bool {
        true
    }

    open spec fn from_spec(s: RsvpStatus) -> ReservationStatus {
        wire_of(s)
    }
}

} // verus!
