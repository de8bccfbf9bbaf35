//! A small social posting service: posts with threaded replies, tweets,
//! user accounts with Argon2 password hashes, and the HTTP handlers that
//! tie them together. Every table is modelled as a vector of rows with an
//! abstract view, and every query states exactly which rows it returns.

pub mod identity;
pub mod laws;
pub mod models;
pub mod ordering;
pub mod routes;
pub mod row_laws;
