//! What the operations promise, in terms of what goes into them and what comes out.
//!
//! Each law speaks of calls: `call_ensures(f, args, result)` says that `f`, called
//! with `args`, may return `result`.
pub mod child_worker;
pub mod connection;
pub mod coordinator;
pub mod devices;
pub mod plan;
pub mod table;
pub mod text;
pub mod total;
pub mod tunnel;
pub mod worker;
