//! Verified core of the pwmd node.
//!
//! - seal scheduling and the seal loop's decisions: [`lifecycle`],
//!   [`seal_loop`], [`seal_turn`], [`block_writer`], [`block_timing`];
//! - single-sealer leases and their store: [`lease`], [`lease_backend`];
//! - peer admission and cluster gates: [`handshake`], [`federation`];
//! - runtime identity, configuration and startup: [`identity`], [`config`],
//!   [`startup`], [`bootstrap`], [`init_state`], [`shutdown`];
//! - cross-shard bookkeeping and roaming: [`ledger`], [`roaming`],
//!   [`handoff`], [`backfill`];
//! - the REST answers built from them: [`api`], [`status`], [`accounts`],
//!   [`tx_wire`];
//! - log lines, log file clock tokens, operator log overrides and debug
//!   dumps: [`logfmt`], [`log_clock`],
//!   [`log_override`], [`debug_dump`];
//! - text helpers shared by all of them: [`text`].

pub mod text;

pub mod lifecycle;
pub mod seal_loop;
pub mod seal_turn;
pub mod block_writer;
pub mod block_timing;

pub mod lease;
pub mod lease_backend;

pub mod handshake;
pub mod federation;

pub mod identity;
pub mod config;
pub mod startup;
pub mod bootstrap;
pub mod init_state;
pub mod shutdown;

pub mod ledger;
pub mod roaming;
pub mod handoff;
pub mod backfill;

pub mod api;
pub mod status;
pub mod accounts;
pub mod tx_wire;

pub mod logfmt;
pub mod log_clock;
pub mod log_override;
pub mod debug_dump;
