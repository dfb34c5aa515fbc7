//! The fixed network strings of the launcher: the probe address, the
//! server's root URL and the rescan endpoint, all on `localhost` with a
//! decimal port.

use vstd::prelude::*;
use vstd::string::StrSliceExecFns;
use vstd::string::StringSliceAdditionalSpecFns;
use crate::text::{spec_decimal, push_decimal};

verus! {

/// Address the health probe connects to: `localhost:<port>`.
pub open spec fn spec_probe_addr(port: int) -> Seq<u8> {
    "localhost:".spec_bytes() + spec_decimal(port)
}

/// Root URL the window is pointed at: `http://localhost:<port>`.
pub open spec fn spec_root_url(port: int) -> Seq<u8> {
    "http://localhost:".spec_bytes() + spec_decimal(port)
}

/// Endpoint of the fire-and-forget rescan request:
/// `http://localhost:<port>/api/scan`.
pub open spec fn spec_rescan_url(port: int) -> Seq<u8> {
    spec_root_url(port) + "/api/scan".spec_bytes()
}

/// Build the health-probe address for `port`.
pub fn probe_addr(port: u16) -> (r: Vec<u8>)
    ensures
        r@ == spec_probe_addr(port as int),
{
    let mut r = "localhost:".as_bytes_vec();
    push_decimal(&mut r, port);
    r
}

/// Build the server's root URL for `port`.
pub fn root_url(port: u16) -> (r: Vec<u8>)
    ensures
        r@ == spec_root_url(port as int),
{
    let mut r = "http://localhost:".as_bytes_vec();
    push_decimal(&mut r, port);
    r
}

/// Build the rescan endpoint URL for `port`.
pub fn rescan_url(port: u16) -> (r: Vec<u8>)
    ensures
        r@ == spec_rescan_url(port as int),
{
    let mut r = root_url(port);
    let tail = "/api/scan".as_bytes_vec();
    r.extend_from_slice(tail.as_slice());
    proof {
        assert(r@ =~= spec_rescan_url(port as int));
    }
    r
}

} // verus!
