//! A verified filter, facet-aggregation, and pagination engine for a catalog
//! of rental offers.
//!
//! The crate models the dataset as a store of offers keyed by their unique
//! identifier, evaluates search queries against a snapshot of that store, and
//! returns a deterministically ordered page of results together with faceted
//! aggregate statistics (price histogram, car-type counts, seat-count
//! distribution, free-kilometer histogram, insurance-flag counts). All
//! aggregates are computed over the fully filtered offer set, uniformly for
//! every facet and every request.

pub mod models;
pub mod query;
pub mod filter;
pub mod sort;
pub mod paginate;
pub mod facets;
pub mod store;
pub mod search;
pub mod wire;
