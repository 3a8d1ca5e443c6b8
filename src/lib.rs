//! Work-order tracking over a fixed catalog of stations, yards and tracks.
//!
//! The catalog is an immutable value handed to whatever needs it; destinations
//! are repaired against it, and orders live in an ordered store addressed by
//! store-assigned guids.
pub mod catalog;
pub mod destination;
pub mod name;
pub mod order;
pub mod stations;
pub mod store;

pub use catalog::{Catalog, CatalogError, Station};
pub use destination::Destination;
pub use order::{bool_to_option, DestinationKind, Kind, Order, OrderUpdate};
pub use stations::standard_stations;
pub use store::{Direction, OrderStore};
