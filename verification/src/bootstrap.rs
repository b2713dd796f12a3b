//! Node bootstrap: worker pool sizing and the identifiers a node starts
//! with.

use crate::api::{hex32, hex_spec};
use crate::text::dec;
use vstd::prelude::*;
use vstd::string::*;

verus! {

/// Splits the host's logical CPUs into (affinity, general) worker counts:
/// one affinity worker, and all CPUs but two (at least one) for general work.
pub fn worker_counts(logical: usize) -> (r: (usize, usize))
    ensures
        r.0 == 1,
        r.1 == (if logical >= 3 { logical - 2 } else { 1 }),
{
    let general = if logical >= 2 { logical - 2 } else { 0 };
    let general = if general >= 1 { general } else { 1 };
    (1, general)
}

/// Worker counts for the host, given the parallelism it reports (`None`
/// where it cannot tell, read as 2 CPUs).
pub fn host_worker_counts(available: Option<usize>) -> (r: (usize, usize))
    ensures
        r == worker_counts_spec(
            match available {
                Some(n) => n,
                None => 2,
            },
        ),
{
    let logical = match available {
        Some(n) => n,
        None => 2,
    };
    worker_counts(logical)
}

pub open spec fn worker_counts_spec(logical: usize) -> (usize, usize) {
    (1, if logical >= 3 { (logical - 2) as usize } else { 1 })
}

/// Instance id of a running node: its node id, process id and start time
/// in ms, joined by `-`.
pub fn node_instance_id(node_id: &str, pid: u32, now_ms: u64) -> (r: String)
    ensures
        r@ == node_id@ + "-"@ + dec(pid as nat) + "-"@ + dec(now_ms as nat),
{
    proof {
        reveal_strlit("-");
    }
    let mut s = String::from_str(node_id);
    s.append("-");
    crate::text::push_dec(&mut s, pid as u64);
    s.append("-");
    crate::text::push_dec(&mut s, now_ms);
    s
}

/// Validator identity hash: hex of the first validator's public key, or
/// `unknown-validator` when the genesis lists none.
pub fn validator_hash(first_validator_pubkey: Option<&[u8; 32]>) -> (r: String)
    ensures
        r@ == match first_validator_pubkey {
            Some(pk) => hex_spec(pk@),
            None => "unknown-validator"@,
        },
{
    match first_validator_pubkey {
        Some(pk) => hex32(pk),
        None => String::from_str("unknown-validator"),
    }
}


/// Whether a node runs the development profile: its network id starts with
/// `dev`. Development nodes accept peer traffic with the transport off.
pub fn is_dev_profile(network_id: &str) -> (r: bool)
    ensures
        r == ("dev"@.len() <= network_id@.len() && network_id@.take("dev"@.len() as int)
            == "dev"@),
{
    crate::text::starts_with(network_id, "dev")
}

} // verus!
