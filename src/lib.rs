//! Catalog statistics of columnar files and the decisions of an
//! S3-compatible storage backend, with their contracts.
pub mod column;
pub mod config;
pub mod storage;
