//! Verified core of a set of utilities that export paginated REST resources
//! as flat record lists.
//!
//! The heart of the crate is the paginator: a link-header cursor extractor
//! and lazy page/item sequences that fetch only as much as a consumer
//! demands, buffer at most one page of items at a time, and surface
//! transport, status and decode failures to the caller instead of hiding
//! them.  The surrounding modules hold the verified record types and the
//! single-pass filtering and field mapping the utilities perform on them.

pub mod link;
pub mod paginate;
pub mod text;
pub mod kopps_api;
pub mod urls;
pub mod kaltura_api;
pub mod enrollments;
pub mod akt_api;
pub mod todos;
pub mod provisioning;
pub mod terms;
