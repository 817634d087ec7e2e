//! Settings of a local Miden test node: data directory, block and batch production
//! intervals, and RPC port.

use std::path::PathBuf;
use std::time::Duration;

use vstd::prelude::*;

verus! {

/// Default block production interval, in milliseconds.
pub const DEFAULT_BLOCK_INTERVAL: u64 = 5_000;

/// Default batch production interval, in milliseconds.
pub const DEFAULT_BATCH_INTERVAL: u64 = 2_000;

/// Default RPC port.
pub const DEFAULT_RPC_PORT: u16 = 57_291;

/// Name of the file holding the genesis account.
pub const GENESIS_ACCOUNT_FILE: &'static str = "account.mac";

#[verifier::external_type_specification]
#[verifier::external_body]
pub struct ExPathBuf(PathBuf);

/// The duration that `Duration::from_millis` builds from `millis`.
pub uninterp spec fn duration_of_millis(millis: u64) -> Duration;

/// Calls `std::time::Duration::from_millis`; its result is named, since it depends on
/// `millis` alone.
#[verifier::external_body]
fn duration_from_millis(millis: u64) -> (r: Duration)
    ensures
        r == duration_of_millis(millis),
{
    Duration::from_millis(millis)
}

/// Builder for configuring and starting a Miden node with all components.
pub struct NodeBuilder {
    data_directory: PathBuf,
    block_interval: Duration,
    batch_interval: Duration,
    rpc_port: u16,
}

impl NodeBuilder {
    /// The directory where the node keeps its data.
    pub closed spec fn data_directory_spec(self) -> PathBuf {
        self.data_directory
    }

    /// The block production interval.
    pub closed spec fn block_interval_spec(self) -> Duration {
        self.block_interval
    }

    /// The batch production interval.
    pub closed spec fn batch_interval_spec(self) -> Duration {
        self.batch_interval
    }

    /// The RPC port.
    pub closed spec fn rpc_port_spec(self) -> u16 {
        self.rpc_port
    }

    /// Creates a new [`NodeBuilder`] with default settings.
    pub fn new(data_directory: PathBuf) -> (r: Self)
        ensures
            r.data_directory_spec() == data_directory,
            r.block_interval_spec() == duration_of_millis(DEFAULT_BLOCK_INTERVAL),
            r.batch_interval_spec() == duration_of_millis(DEFAULT_BATCH_INTERVAL),
            r.rpc_port_spec() == DEFAULT_RPC_PORT,
    {
        NodeBuilder {
            data_directory,
            block_interval: duration_from_millis(DEFAULT_BLOCK_INTERVAL),
            batch_interval: duration_from_millis(DEFAULT_BATCH_INTERVAL),
            rpc_port: DEFAULT_RPC_PORT,
        }
    }

    /// Sets the block production interval.
    pub fn with_block_interval(self, interval: Duration) -> (r: Self)
        ensures
            r.block_interval_spec() == interval,
            r.data_directory_spec() == self.data_directory_spec(),
            r.batch_interval_spec() == self.batch_interval_spec(),
            r.rpc_port_spec() == self.rpc_port_spec(),
    {
        let mut s = self;
        s.block_interval = interval;
        s
    }

    /// Sets the batch production interval.
    pub fn with_batch_interval(self, interval: Duration) -> (r: Self)
        ensures
            r.batch_interval_spec() == interval,
            r.data_directory_spec() == self.data_directory_spec(),
            r.block_interval_spec() == self.block_interval_spec(),
            r.rpc_port_spec() == self.rpc_port_spec(),
    {
        let mut s = self;
        s.batch_interval = interval;
        s
    }

    /// Sets the RPC port.
    pub fn with_rpc_port(self, port: u16) -> (r: Self)
        ensures
            r.rpc_port_spec() == port,
            r.data_directory_spec() == self.data_directory_spec(),
            r.block_interval_spec() == self.block_interval_spec(),
            r.batch_interval_spec() == self.batch_interval_spec(),
    {
        let mut s = self;
        s.rpc_port = port;
        s
    }
}

} // verus!
