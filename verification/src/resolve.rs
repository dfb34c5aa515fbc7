//! Environment resolver: where does the server live, and which runtime
//! binary runs it?
//!
//! Paths are modelled as `/`-separated byte strings without a trailing
//! separator. The resolver builds an ordered list of candidate locations —
//! a packaged-resource directory next to the executable where that platform
//! convention applies, then a bounded ancestor walk looking for the build
//! output — and picks the first whose probe artifact exists. Existence is a
//! fact about the file system, so the host checks each candidate's probe
//! path and hands the answers back as plain booleans; the choice itself is
//! deterministic and side-effect-free.

use vstd::prelude::*;
use vstd::string::StrSliceExecFns;
use vstd::string::StringSliceAdditionalSpecFns;
use crate::text::{spec_trim, trim_bytes, subvec};

verus! {

/// Largest index holding `b`, or `-1` when `b` does not occur.
pub open spec fn spec_rfind(s: Seq<u8>, b: u8) -> int
    decreases s.len(),
{
    if s.len() == 0 {
        -1
    } else if s[s.len() - 1] == b {
        s.len() - 1
    } else {
        spec_rfind(s.drop_last(), b)
    }
}

/// [`spec_rfind`] is the last occurrence: in range, pointing at `b`, with
/// nothing but other bytes after it.
pub proof fn lemma_rfind_props(s: Seq<u8>, b: u8)
    ensures
        -1 <= spec_rfind(s, b) < s.len(),
        spec_rfind(s, b) >= 0 ==> s[spec_rfind(s, b)] == b,
        forall|j: int| spec_rfind(s, b) < j < s.len() ==> s[j] != b,
    decreases s.len(),
{
    if s.len() > 0 && s[s.len() - 1] != b {
        lemma_rfind_props(s.drop_last(), b);
        assert(forall|j: int| 0 <= j < s.len() - 1 ==> s.drop_last()[j] == s[j]);
    }
}

/// Last occurrence of `b` in `s`, as executable code.
pub fn rfind_byte(s: &Vec<u8>, b: u8) -> (r: Option<usize>)
    ensures
        match r {
            Some(i) => i == spec_rfind(s@, b),
            None => spec_rfind(s@, b) == -1,
        },
{
    proof {
        lemma_rfind_props(s@, b);
    }
    let mut i = s.len();
    while i > 0
        invariant
            i <= s@.len(),
            forall|j: int| i <= j < s@.len() ==> s@[j] != b,
            -1 <= spec_rfind(s@, b) < s@.len(),
            spec_rfind(s@, b) >= 0 ==> s@[spec_rfind(s@, b)] == b,
            forall|j: int| spec_rfind(s@, b) < j < s@.len() ==> s@[j] != b,
        decreases i,
    {
        if s[i - 1] == b {
            return Some(i - 1);
        }
        i = i - 1;
    }
    None
}

/// Parent directory of a path: everything before the last `/`, with the
/// root `/` kept as is. A path without `/`, and the root itself, have none
/// (the walk stops there).
pub open spec fn spec_parent(p: Seq<u8>) -> Option<Seq<u8>> {
    let j = spec_rfind(p, 47);
    if j < 0 {
        None
    } else if j == 0 {
        if p.len() == 1 {
            None
        } else {
            Some(p.subrange(0, 1))
        }
    } else {
        Some(p.subrange(0, j))
    }
}

/// Parent directory, as executable code.
pub fn parent_dir(p: &Vec<u8>) -> (r: Option<Vec<u8>>)
    ensures
        match r {
            Some(q) => spec_parent(p@) == Some(q@),
            None => spec_parent(p@).is_none(),
        },
{
    proof {
        lemma_rfind_props(p@, 47);
    }
    match rfind_byte(p, 47) {
        None => None,
        Some(j) => {
            if j == 0 {
                if p.len() == 1 {
                    None
                } else {
                    Some(subvec(p, 0, 1))
                }
            } else {
                Some(subvec(p, 0, j))
            }
        },
    }
}

/// `name` under directory `d`, with exactly one separator between them.
pub open spec fn spec_join(d: Seq<u8>, name: Seq<u8>) -> Seq<u8> {
    if d.len() > 0 && d[d.len() - 1] == 47 {
        d + name
    } else {
        d + seq![47u8] + name
    }
}

/// Append `name` under directory `d`.
pub fn join_path(d: &Vec<u8>, name: &str) -> (r: Vec<u8>)
    ensures
        r@ == spec_join(d@, name.spec_bytes()),
{
    let mut r = subvec(d, 0, d.len());
    if d.len() == 0 || d[d.len() - 1] != 47 {
        r.push(47);
    }
    let tail = name.as_bytes_vec();
    r.extend_from_slice(tail.as_slice());
    proof {
        assert(r@ =~= spec_join(d@, name.spec_bytes()));
    }
    r
}

/// A place the server might live: the directory to run in, and the path
/// whose existence proves the candidate is real.
pub struct Candidate {
    pub dir: Vec<u8>,
    pub probe: Vec<u8>,
}

/// The candidates the bounded ancestor walk yields from `p`, one per
/// ancestor, nearest first: `<ancestor>/.next/standalone`, probed by its
/// `server.js` entry artifact. The walk stops at the root or after `k`
/// levels, whichever comes first.
pub open spec fn spec_walk(p: Seq<u8>, k: nat) -> Seq<(Seq<u8>, Seq<u8>)>
    decreases k,
{
    if k == 0 {
        Seq::empty()
    } else {
        match spec_parent(p) {
            None => Seq::empty(),
            Some(q) => {
                let d = spec_join(spec_join(q, ".next".spec_bytes()), "standalone".spec_bytes());
                seq![(d, spec_join(d, "server.js".spec_bytes()))] + spec_walk(q, (k - 1) as nat)
            },
        }
    }
}

/// The packaged-resource candidate two levels above the executable, used
/// where that platform convention applies: `../../Resources/standalone`,
/// probed by the directory itself.
pub open spec fn spec_resources_dir(exe: Seq<u8>) -> Option<Seq<u8>> {
    match spec_parent(exe) {
        None => None,
        Some(p1) => match spec_parent(p1) {
            None => None,
            Some(p2) => Some(
                spec_join(spec_join(p2, "Resources".spec_bytes()), "standalone".spec_bytes()),
            ),
        },
    }
}

/// The full ordered candidate list for an executable at `exe`: the
/// packaged-resource location first where it applies, then the ancestor
/// walk, bounded to ten levels.
pub open spec fn spec_candidates(exe: Seq<u8>, include_resources: bool) -> Seq<(Seq<u8>, Seq<u8>)> {
    let walk = spec_walk(exe, 10);
    if include_resources {
        match spec_resources_dir(exe) {
            Some(d) => seq![(d, d)] + walk,
            None => walk,
        }
    } else {
        walk
    }
}

/// The (directory, probe) pairs a candidate list stands for.
pub open spec fn cand_views(s: Seq<Candidate>) -> Seq<(Seq<u8>, Seq<u8>)> {
    s.map_values(|c: Candidate| (c.dir@, c.probe@))
}

/// Append the ancestor-walk candidates of `p`, up to `k` levels, to `out`.
fn push_walk(out: &mut Vec<Candidate>, p: &Vec<u8>, k: usize)
    ensures
        cand_views(final(out)@) == cand_views(old(out)@) + spec_walk(p@, k as nat),
    decreases k,
{
    if k == 0 {
        proof {
            assert(cand_views(out@) =~= cand_views(out@) + spec_walk(p@, 0));
        }
        return ;
    }
    match parent_dir(p) {
        None => {
            proof {
                assert(cand_views(out@) =~= cand_views(out@) + spec_walk(p@, k as nat));
            }
        },
        Some(q) => {
            let d = join_path(&join_path(&q, ".next"), "standalone");
            let probe = join_path(&d, "server.js");
            let ghost v0 = (d@, probe@);
            let ghost rest = spec_walk(q@, (k - 1) as nat);
            proof {
                assert(spec_walk(p@, k as nat) =~= seq![v0] + rest);
            }
            let ghost before = out@;
            out.push(Candidate { dir: d, probe });
            proof {
                assert(cand_views(out@) =~= cand_views(before).push(v0));
            }
            let ghost mid = out@;
            push_walk(out, &q, k - 1);
            proof {
                assert(cand_views(out@) =~= cand_views(before) + spec_walk(p@, k as nat)) by {
                    assert(cand_views(out@) == cand_views(mid) + rest);
                    assert(cand_views(mid) == cand_views(before).push(v0));
                    assert(cand_views(before).push(v0) + rest =~= cand_views(before) + (seq![v0]
                        + rest));
                }
            }
        },
    }
}

/// Build the ordered candidate list for the server directory.
/// `include_resources` says whether the packaged-resource convention
/// applies on this platform.
pub fn standalone_candidates(exe: &Vec<u8>, include_resources: bool) -> (r: Vec<Candidate>)
    ensures
        cand_views(r@) == spec_candidates(exe@, include_resources),
{
    let mut out: Vec<Candidate> = Vec::new();
    proof {
        assert(cand_views(out@) =~= Seq::<(Seq<u8>, Seq<u8>)>::empty());
    }
    if include_resources {
        if let Some(p1) = parent_dir(exe) {
            if let Some(p2) = parent_dir(&p1) {
                let d = join_path(&join_path(&p2, "Resources"), "standalone");
                let probe = subvec(&d, 0, d.len());
                let ghost before = out@;
                let ghost v0 = (d@, probe@);
                proof {
                    assert(probe@ =~= d@);
                    assert(spec_resources_dir(exe@) == Some(d@));
                }
                out.push(Candidate { dir: d, probe });
                proof {
                    assert(cand_views(out@) =~= cand_views(before).push(v0));
                }
            }
        }
    }
    let ghost mid = out@;
    push_walk(&mut out, exe, 10);
    proof {
        assert(cand_views(out@) == cand_views(mid) + spec_walk(exe@, 10));
        assert(cand_views(out@) =~= spec_candidates(exe@, include_resources));
    }
    out
}

/// Index of the first candidate that exists: the host checks each probe
/// path against the file system and passes the answers in candidate order.
pub fn first_hit(exists_flags: &Vec<bool>) -> (r: Option<usize>)
    ensures
        match r {
            Some(i) => {
                &&& i < exists_flags@.len()
                &&& exists_flags@[i as int]
                &&& forall|j: int| 0 <= j < i ==> !exists_flags@[j]
            },
            None => forall|j: int| 0 <= j < exists_flags@.len() ==> !exists_flags@[j],
        },
{
    let mut i: usize = 0;
    while i < exists_flags.len()
        invariant
            i <= exists_flags@.len(),
            forall|j: int| 0 <= j < i ==> !exists_flags@[j],
        decreases exists_flags@.len() - i,
    {
        if exists_flags[i] {
            return Some(i);
        }
        i = i + 1;
    }
    None
}

/// Interpret the shell's command-resolution fallback for the runtime
/// binary: the lookup succeeded and printed a non-empty path (surrounding
/// whitespace, including the trailing newline, trimmed away).
pub fn runtime_from_lookup(success: bool, stdout: &Vec<u8>) -> (r: Option<Vec<u8>>)
    ensures
        match r {
            Some(p) => success && spec_trim(stdout@).len() > 0 && p@ == spec_trim(stdout@),
            None => !success || spec_trim(stdout@).len() == 0,
        },
{
    if !success {
        return None;
    }
    let t = trim_bytes(stdout);
    if t.len() == 0 {
        None
    } else {
        Some(t)
    }
}

} // verus!
