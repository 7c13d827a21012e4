//! Domain logic of a small user-directory web service: request models,
//! error classification, the filter language of the listing endpoint and
//! the paging of its results.

pub mod error;
pub mod text;
pub mod filter;
pub mod query;
pub mod users;
