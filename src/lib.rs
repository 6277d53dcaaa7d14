//! Search-request composition, pagination and rate-limit handling for a
//! GitHub repository explorer.
//!
//! - [`query`]: the filters and the search query and URL built from them.
//! - [`encoding`]: percent-encoding of the query.
//! - [`pagination`]: page counts and the window of page numbers offered.
//! - [`rate_limit`]: quota snapshots read from response headers.
//! - [`controller`]: the search state, its transitions, and response checks.
//! - [`model`]: repositories and search responses.
//! - [`display`]: dates and avatar URLs as shown.
pub mod controller;
pub mod display;
pub mod encoding;
pub mod model;
pub mod pagination;
pub mod query;
pub mod rate_limit;
pub mod text;
