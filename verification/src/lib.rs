//! Data-access core of a multi-role academic records portal.
//!
//! The heart of the library is a versioned-record persistence scheme
//! (an append-only revision store with a latest-wins "current" view)
//! and a query-composition engine: sparse filter records are folded into
//! AND-combined predicates, sparse sort records into a single multi-key
//! ordering applied in a fixed priority, and page metadata is computed
//! by a small pagination calculator. Entity repositories (accounts,
//! courses, assignments, progress records, enrolments, generations,
//! programs) are typed facades over those pieces.

pub mod assignment;
pub mod collaborators;
pub mod components;
pub mod course;
pub mod database;
pub mod discussion;
pub mod error;
pub mod forms;
pub mod helpers;
pub mod index;
pub mod localization;
pub mod login;
pub mod models;
pub mod pagination;
pub mod registration;
pub mod session;
pub mod store;
pub mod text;
pub mod user;
pub mod util;

pub use error::Error;
