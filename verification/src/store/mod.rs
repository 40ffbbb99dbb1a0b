//! The task table: payloads, rows and ids.
pub mod crud;
pub mod id_gen;
pub mod table;
