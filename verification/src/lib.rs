//! Decision core of a small mesh that serves one language model from the GPUs
//! of several machines.
pub mod child_worker;
pub mod connection;
pub mod coord;
pub mod coordinator;
pub mod ffi;
pub mod laws;
pub mod protocol;
pub mod reload;
pub mod rpc_server;
pub mod table;
pub mod text;
pub mod topology;
pub mod tunnel;
pub mod worker;
