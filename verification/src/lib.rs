//! A search-result filter service core: decodes a query payload, builds the
//! outbound search URL, and extracts normalized result records (url + excerpt)
//! from the returned HTML under a caller-supplied time budget.

pub mod clock;
pub mod extract;
pub mod query;
pub mod scan;
pub mod text;
pub mod urlenc;
