//! A reservation engine: time-bounded holds on shared resources, with a
//! conflict-free interval schedule per resource, a small status lifecycle and
//! two read paths (a time-window query and an id-cursor filter).

pub mod config;
pub mod conflict;
pub mod error;
pub mod filter;
pub mod laws;
pub mod pager;
pub mod query;
pub mod reservation;
pub mod statements;
pub mod status;
pub mod store;
pub mod text;
pub mod time;

pub use config::{default_pool_size, Config, DbConfig, ServerConfig};
pub use conflict::{ReservationConflict, ReservationConflictInfo, ReservationWindow};
pub use error::{Error, StatusCode, StoreFault};
pub use filter::{ReservationFilter, ReservationFilterBuilder, ReservationFilterView, ToSql};
pub use pager::{FilterPager, PageInfo};
pub use query::{ReservationQuery, ReservationQueryView};
pub use reservation::{
    get_timespan, validate_id, validate_range, NaiveRange, Reservation, ReservationId,
    ReservationView,
};
pub use status::{ReservationStatus, RsvpStatus};
pub use store::MemoryStore;
pub use time::Timestamp;
