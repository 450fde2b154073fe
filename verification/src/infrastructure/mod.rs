//! Storage behind the domain's repository interface.
pub mod sqlite_repository;
