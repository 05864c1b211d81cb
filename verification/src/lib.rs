//! Verified core of a remote terminal controller: the rules that decide which
//! project directories become tasks, how their `dtach`/`ttyd` runtime is
//! started, probed, repaired and cleaned up, and how terminal requests are
//! routed to the `ttyd` port of a task.
use vstd::prelude::*;

pub mod cleanup;
pub mod config;
pub mod error;
pub mod external;
pub mod lifecycle;
pub mod logs;
pub mod models;
pub mod text;
pub mod project;
pub mod routes;
pub mod runtime;

verus! {

} // verus!
