//! A task backend for a host that speaks JSON-RPC over standard input and output.
//!
//! The library holds the rules of the backend: what each method of the task surface asks of the
//! task table and replies ([`methods`]), which payload and which row a task has and which id comes
//! next ([`store`]), the standard subject verbs ([`backend`]), which request goes where
//! ([`server`]) and what the settings mean ([`config`]). It neither opens the table nor reads a
//! request: a program around it does, and hands over plain values.
//!
//! Documents are values of [`value::Value`], whose model is [`value::Json`]. What holds across
//! functions is stated and proved in [`laws`].
pub mod backend;
pub mod clock;
pub mod config;
pub mod laws;
pub mod methods;
pub mod rpc;
pub mod server;
pub mod store;
pub mod text;
pub mod value;
