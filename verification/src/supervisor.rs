//! Server supervisor: decides whether and how to spawn the supervised
//! child, tracks the one handle it may own, and plans its termination.
//!
//! The operating-system process itself lives in the host: the supervisor
//! hands it a [`SpawnSpec`] to execute and receives the resulting process
//! identifier back, or an explicit failure note. At most one handle is
//! tracked; a start while one is held is refused rather than silently
//! replacing (and leaking) the first child.

use vstd::prelude::*;
use vstd::string::StrSliceExecFns;
use vstd::string::StringSliceAdditionalSpecFns;
use crate::envfile::EnvMap;
use crate::text::{spec_decimal, push_decimal, subvec};

verus! {

/// Everything the host needs to spawn the server: run `program` with the
/// entry artifact `arg` as its argument, in working directory `cwd`, with
/// the parent environment overridden by every binding of `env`.
pub struct SpawnSpec {
    pub program: Vec<u8>,
    pub arg: Vec<u8>,
    pub cwd: Vec<u8>,
    pub env: EnvMap,
}

/// The two fixed overrides laid over the parent environment before the
/// environment file's own bindings: the listening port and a fixed local
/// hostname.
pub open spec fn spec_default_overrides(port: int) -> Map<Seq<u8>, Seq<u8>> {
    Map::empty().insert("PORT".spec_bytes(), spec_decimal(port)).insert(
        "HOSTNAME".spec_bytes(),
        "localhost".spec_bytes(),
    )
}

/// Build the fixed overrides for `port`.
pub fn default_overrides(port: u16) -> (r: EnvMap)
    ensures
        r.wf(),
        r@ == spec_default_overrides(port as int),
{
    let mut m = EnvMap::new();
    let mut digits: Vec<u8> = Vec::new();
    push_decimal(&mut digits, port);
    proof {
        assert(digits@ =~= spec_decimal(port as int));
    }
    m.insert("PORT".as_bytes_vec(), digits);
    m.insert("HOSTNAME".as_bytes_vec(), "localhost".as_bytes_vec());
    m
}

/// The child's environment overrides: the fixed defaults first, then every
/// binding of the environment file on top — on a key collision the file
/// wins.
pub fn child_env(file_env: &EnvMap, port: u16) -> (r: EnvMap)
    requires
        file_env.wf(),
    ensures
        r.wf(),
        r@ == spec_default_overrides(port as int).union_prefer_right(file_env@),
{
    let mut m = default_overrides(port);
    m.overlay(file_env);
    m
}

/// Owner of the at-most-one supervised child process.
pub struct Supervisor {
    handle: Option<u64>,
}

impl Supervisor {
    /// The tracked process identifier, if a child is owned.
    pub closed spec fn child(&self) -> Option<u64> {
        self.handle
    }

    /// A fresh supervisor: no child is tracked.
    pub fn new() -> (r: Supervisor)
        ensures
            r.child().is_none(),
    {
        Supervisor { handle: None }
    }

    /// Read the tracked handle.
    pub fn current(&self) -> (r: Option<u64>)
        ensures
            r == self.child(),
    {
        self.handle
    }

    /// Decide whether to spawn, and with what. A spawn is planned exactly
    /// when no child is tracked yet, a server directory was resolved, its
    /// entry artifact exists, and a runtime binary was found; a missing
    /// piece is not an error, the launcher simply continues without a
    /// server.
    pub fn plan_start(
        &self,
        dir: &Option<Vec<u8>>,
        entry_exists: bool,
        runtime: &Option<Vec<u8>>,
        file_env: &EnvMap,
        port: u16,
    ) -> (r: Option<SpawnSpec>)
        requires
            file_env.wf(),
        ensures
            r.is_some() <==> (self.child().is_none() && dir.is_some() && entry_exists
                && runtime.is_some()),
            r matches Some(sp) ==> {
                &&& sp.program@ == runtime.unwrap()@
                &&& sp.arg@ == "server.js".spec_bytes()
                &&& sp.cwd@ == dir.unwrap()@
                &&& sp.env.wf()
                &&& sp.env@ == spec_default_overrides(port as int).union_prefer_right(file_env@)
            },
    {
        if self.handle.is_some() {
            return None;
        }
        let d = match dir {
            Some(d) => d,
            None => { return None; },
        };
        if !entry_exists {
            return None;
        }
        let p = match runtime {
            Some(p) => p,
            None => { return None; },
        };
        let env = child_env(file_env, port);
        Some(
            SpawnSpec {
                program: subvec(p, 0, p.len()),
                arg: "server.js".as_bytes_vec(),
                cwd: subvec(d, 0, d.len()),
                env,
            },
        )
    }

    /// Record a successful spawn: the supervisor now owns the child.
    pub fn note_spawned(&mut self, pid: u64)
        requires
            old(self).child().is_none(),
        ensures
            final(self).child() == Some(pid),
    {
        self.handle = Some(pid);
    }

    /// Terminate: returns the handle the host must kill, and forgets it.
    /// Idempotent — with no child tracked it returns nothing, kills
    /// nothing, and leaves the supervisor exactly as it was.
    pub fn stop(&mut self) -> (r: Option<u64>)
        ensures
            final(self).child().is_none(),
            r == old(self).child(),
    {
        let r = self.handle;
        self.handle = None;
        r
    }
}

} // verus!
