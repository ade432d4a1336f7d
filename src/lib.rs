//! Persistence and administration layer for a pool of upstream-service
//! credentials: a credential store with soft deletion and ordered, paginated
//! reads; the statements of its relational backend; and an admin service
//! over the live rotation manager, with export framing and configuration.

pub mod admin;
pub mod config;
pub mod export;
pub mod memory;
pub mod order;
pub mod record;
pub mod sql;
pub mod text;
