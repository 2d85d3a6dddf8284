use vstd::prelude::*;

verus! {

/// How the replicas of a node get their status.
#[derive(Clone, Copy, Debug, PartialEq, Eq, Structural)]
pub enum Mode {
    /// Actively checked over ICMP, TCP or HTTP.
    Poll,
    /// Actively checked by running a command.
    Script,
    /// Replicas report their load.
    Push,
    /// Replicas report their own health.
    Local,
}

} // verus!
