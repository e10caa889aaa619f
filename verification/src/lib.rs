//! Administration backend logic for StarRocks clusters: password hashing,
//! SQL statement construction for database and table management, cluster
//! request handling and health evaluation.

pub mod catalog;
pub mod cluster;
pub mod error;
pub mod health;
pub mod password;
pub mod text;
