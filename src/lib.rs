//! Reassembly of HTTP/1.x, HTTP/2 and MySQL round-trips from byte streams
//! observed inside a traced process, the records that carry them to a
//! collector, and what the collector makes of them.

pub mod bytes;
pub mod collector;
pub mod dashboard;
pub mod dispatch;
pub mod guard;
pub mod h2;
pub mod http1;
pub mod laws;
pub mod mysql;
pub mod store;
pub mod text;
pub mod trace;
pub mod wire;
