//! Expands a letter-grid description of a transit network into the tables of
//! a schedule feed: stops, routes, trips, stop times, calendar and agency.
//!
//! Stops are registered on the cells of a 26 x 26 grid, routes over those
//! stops. Each route is expanded into trips at a fixed frequency, each trip
//! into its visits at the stops, and all of it is written as lines of
//! comma-separated text. Where the stops lie on the globe and how long a
//! leg takes is the caller's to say.

pub mod clock;
pub mod feed;
pub mod network;
pub mod position;
pub mod schedule;
pub mod text;

pub use clock::TimeOfDay;
pub use feed::{Coordinates, Feed, FeedFile};
pub use network::{GridRoute, GridStop, TransitGrid};
pub use position::GridPosition;
pub use schedule::{Leg, StopVisit, Trip};
