//! Verified core of a GitHub user discovery and follower management tool:
//! search queries and page sizes, merging of search results, follower
//! relations, request pacing and the messages of refused requests.
pub mod client;
pub mod config;
pub mod date;
pub mod filter;
pub mod graphql;
pub mod model;
pub mod profiles;
pub mod query;
pub mod search;
pub mod text;
