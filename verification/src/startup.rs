//! Decisions the node takes once at startup from its configuration: the
//! seal-ahead lead, the operator token, the instance id, the lease's first
//! state and store, the debug dump limits, which transport loop runs and
//! which browser origins the RPC listener admits.

use crate::handshake::SealRole;
use crate::lease::LeaseState;
use crate::lease_backend::LeaseBackendMode;
use crate::text::{find_char, lemma_seg_len, seg_len, trim, trim_str};
use vstd::prelude::*;
use vstd::string::*;

verus! {

/// Seal-ahead lead actually used: a configured lead of a whole seal
/// interval or more is clamped to one ms below the interval (at least 1).
pub fn clamp_seal_ahead(seal_ahead_ms: u64, seal_ms: u64) -> (r: u64)
    ensures
        r == if seal_ahead_ms > 0 && seal_ahead_ms >= seal_ms {
            if seal_ms >= 2 {
                (seal_ms - 1) as u64
            } else {
                1
            }
        } else {
            seal_ahead_ms
        },
{
    if seal_ahead_ms > 0 && seal_ahead_ms >= seal_ms {
        if seal_ms >= 2 {
            seal_ms - 1
        } else {
            1
        }
    } else {
        seal_ahead_ms
    }
}

/// A configured value trimmed, where anything is left of it.
pub open spec fn nonblank(raw: Option<Seq<char>>) -> Option<Seq<char>> {
    match raw {
        Some(v) => if trim(v).len() > 0 {
            Some(trim(v))
        } else {
            None
        },
        None => None,
    }
}

/// A configured value trimmed, where anything is left of it (the operator
/// token, the instance id override).
pub fn nonblank_value(raw: Option<&str>) -> (r: Option<String>)
    ensures
        match r {
            Some(v) => nonblank(
                match raw {
                    Some(s) => Some(s@),
                    None => None,
                },
            ) == Some(v@),
            None => nonblank(
                match raw {
                    Some(s) => Some(s@),
                    None => None,
                },
            ) is None,
        },
{
    match raw {
        Some(s) => {
            let t = trim_str(s);
            if t.unicode_len() > 0 {
                Some(String::from_str(t))
            } else {
                None
            }
        },
        None => None,
    }
}

/// Whether to warn that static cluster members will not match across
/// restarts: a cluster with listed members and no stable instance id.
pub fn unstable_member_ids(cluster_enabled: bool, members_listed: bool, id_override: Option<&str>) -> (r:
    bool)
    ensures
        r == (cluster_enabled && members_listed && nonblank(
            match id_override {
                Some(s) => Some(s@),
                None => None,
            },
        ) is None),
{
    let missing = nonblank_value(id_override).is_none();
    cluster_enabled && members_listed && missing
}

/// The lease's state when the node starts: active sealing for an active
/// seal role, standby otherwise.
pub fn initial_lease_state(role: SealRole) -> (r: LeaseState)
    ensures
        r == if role == SealRole::Active {
            LeaseState::ActiveSealing
        } else {
            LeaseState::StandbySyncing
        },
{
    match role {
        SealRole::Active => LeaseState::ActiveSealing,
        SealRole::Standby => LeaseState::StandbySyncing,
    }
}

/// Where the lease is stored: the lease directory for the file backend,
/// nowhere for the process-local one.
pub fn lease_path_for(mode: LeaseBackendMode, lease_dir: &str) -> (r: Option<String>)
    ensures
        match mode {
            LeaseBackendMode::File => r matches Some(p) && p@ == lease_dir@,
            LeaseBackendMode::ProcessLocal => r is None,
        },
{
    match mode {
        LeaseBackendMode::File => Some(String::from_str(lease_dir)),
        LeaseBackendMode::ProcessLocal => None,
    }
}

/// Divergence dump limits in effect: a trigger streak of at least 2 and a
/// cap of at least 1 file.
pub fn dump_limits(trigger_streak: u32, max_files: u32) -> (r: (u32, u32))
    ensures
        r.0 == if trigger_streak < 2 {
            2
        } else {
            trigger_streak
        },
        r.1 == if max_files < 1 {
            1
        } else {
            max_files
        },
{
    (
        if trigger_streak < 2 {
            2
        } else {
            trigger_streak
        },
        if max_files < 1 {
            1
        } else {
            max_files
        },
    )
}

/// Which peer transport the node runs.
#[derive(Clone, Copy, Debug, PartialEq, Eq)]
pub struct TransportPlan {
    /// Listen for peers on the peer socket.
    pub peer_listener: bool,
    /// Dial the configured seeds and keep sessions; otherwise run the
    /// local-only transport loop.
    pub stateful: bool,
}

/// Transport loops for the configuration: with transport on, a peer
/// listener, and the seed-dialing loop where seeds are configured.
pub fn transport_plan(enabled: bool, has_seeds: bool) -> (r: TransportPlan)
    ensures
        r.peer_listener == enabled,
        r.stateful == (enabled && has_seeds),
{
    TransportPlan { peer_listener: enabled, stateful: enabled && has_seeds }
}

/// The peer socket must not be the RPC socket while transport is on.
pub fn peer_listen_conflict(transport_enabled: bool, same_socket: bool, rpc: &str, peer: &str) -> (r:
    Result<(), String>)
    ensures
        transport_enabled && same_socket ==> (r matches Err(m) && m@
            == "peer listener must use a dedicated socket; rpc="@ + rpc@ + " peer="@ + peer@),
        !(transport_enabled && same_socket) ==> r is Ok,
{
    proof {
        reveal_strlit("peer listener must use a dedicated socket; rpc=");
        reveal_strlit(" peer=");
    }
    if transport_enabled && same_socket {
        let mut m = String::from_str("peer listener must use a dedicated socket; rpc=");
        m.append(rpc);
        m.append(" peer=");
        m.append(peer);
        return Err(m);
    }
    Ok(())
}


// ---------------------------------------------------------------------------
// Browser origins of the RPC listener
// ---------------------------------------------------------------------------

/// The origins of a comma-separated list: each field trimmed, empty ones
/// left out, in their order.
pub open spec fn origin_list(s: Seq<char>) -> Seq<Seq<char>>
    decreases s.len(),
{
    let n = seg_len(s, ',');
    let t = trim(s.take(n as int));
    let head = if t.len() > 0 {
        seq![t]
    } else {
        Seq::<Seq<char>>::empty()
    };
    if n < s.len() {
        head + origin_list(s.skip(n as int + 1))
    } else {
        head
    }
}

/// What the RPC listener allows across origins.
#[derive(Debug, PartialEq, Eq)]
pub enum CorsPlan {
    /// Any origin, any method (loopback listeners only).
    Permissive,
    /// GET and POST from exactly these origins.
    AllowOrigins(Vec<String>),
}

/// Message of a non-loopback listener with no origin configured.
pub open spec fn cors_missing_msg() -> Seq<char> {
    "non-loopback --listen requires PWM_CORS_ORIGINS (comma-separated allow_origins)"@
}

/// Cross-origin policy of the RPC listener: permissive on loopback,
/// otherwise the origins listed in `origins_raw` (comma separated), of
/// which there must be at least one.
pub fn cors_plan(listen_is_loopback: bool, origins_raw: &str) -> (r: Result<CorsPlan, String>)
    ensures
        listen_is_loopback ==> r == Ok::<CorsPlan, String>(CorsPlan::Permissive),
        !listen_is_loopback && origin_list(origins_raw@).len() == 0 ==> (r matches Err(m) && m@
            == cors_missing_msg()),
        !listen_is_loopback && origin_list(origins_raw@).len() > 0 ==> (r matches Ok(
            CorsPlan::AllowOrigins(v),
        ) && v@.map_values(|x: String| x@) == origin_list(origins_raw@)),
{
    if listen_is_loopback {
        return Ok(CorsPlan::Permissive);
    }
    let len = origins_raw.unicode_len();
    let mut out: Vec<String> = Vec::new();
    let mut pos: usize = 0;
    let mut done = false;
    assert(origins_raw@.skip(0) =~= origins_raw@);
    assert(out@.map_values(|x: String| x@) + origin_list(origins_raw@) =~= origin_list(
        origins_raw@,
    ));
    while !done
        invariant
            len == origins_raw@.len(),
            pos <= len,
            !done ==> out@.map_values(|x: String| x@) + origin_list(origins_raw@.skip(pos as int))
                == origin_list(origins_raw@),
            done ==> out@.map_values(|x: String| x@) == origin_list(origins_raw@),
        decreases len - pos + (if done {
            0int
        } else {
            1int
        }),
    {
        let j = find_char(origins_raw, pos, ',');
        let ghost rest = origins_raw@.skip(pos as int);
        let ghost before = out@.map_values(|x: String| x@);
        proof {
            lemma_seg_len(rest, ',', (j - pos) as nat);
        }
        let seg = origins_raw.substring_char(pos, j);
        assert(seg@ =~= rest.take((j - pos) as int));
        let t = trim_str(seg);
        if t.unicode_len() > 0 {
            out.push(String::from_str(t));
        }
        let ghost head = if t@.len() > 0 {
            seq![t@]
        } else {
            Seq::<Seq<char>>::empty()
        };
        assert(out@.map_values(|x: String| x@) =~= before + head);
        if j < len {
            assert(rest.skip((j - pos) as int + 1) =~= origins_raw@.skip(j + 1));
            assert(origin_list(rest) == head + origin_list(origins_raw@.skip(j + 1)));
            assert(before + head + origin_list(origins_raw@.skip(j + 1)) =~= before + (head
                + origin_list(origins_raw@.skip(j + 1))));
            pos = j + 1;
        } else {
            assert(origin_list(rest) == head);
            done = true;
        }
    }
    proof {
        reveal_strlit("non-loopback --listen requires PWM_CORS_ORIGINS (comma-separated allow_origins)");
    }
    if out.len() == 0 {
        return Err(
            String::from_str(
                "non-loopback --listen requires PWM_CORS_ORIGINS (comma-separated allow_origins)",
            ),
        );
    }
    Ok(CorsPlan::AllowOrigins(out))
}

} // verus!
