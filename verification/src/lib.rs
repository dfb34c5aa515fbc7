//! Core of a desktop launcher that supervises a locally embedded web
//! application server: resolving where the server lives, merging its
//! environment, planning the spawn, gating window visibility on the server
//! becoming reachable, and routing tray commands to supervisor and window
//! actions. Platform work (file system, process spawning, sockets, the
//! windowing layer) is performed by the host program, which feeds plain
//! values to the functions here and carries out the actions they return.

use vstd::prelude::*;

pub mod dispatch;
pub mod envfile;
pub mod netstr;
pub mod probe;
pub mod resolve;
pub mod supervisor;
pub mod text;
pub mod window;

verus! {

/// TCP port the supervised server listens on.
pub const DEFAULT_PORT: u16 = 3088;

} // verus!
