//! The decisions of the activity runner: before an external call of the
//! WebAssembly program goes on, the node makes sure that the call's outcome
//! is recorded in the cluster, running the call itself only when it is the
//! primary node and the outcome is not recorded yet.
use vstd::prelude::*;

use crate::cli::HostAddr;
use crate::client::ClientRebuild;

verus! {

/// What the node sees when it looks at the log entry of the current call.
#[derive(Debug)]
pub enum Observation {
    /// As a member: whether and how to rebuild, and whether the entry is known.
    Client { rebuild: ClientRebuild, has_value: bool },
    /// As the primary node: whether the entry is known.
    Server { has_value: bool },
}

/// What the node does next for the current call.
#[derive(Debug)]
pub enum Step {
    /// The outcome is known: the call is done.
    Proceed,
    /// Ask the primary node for the outcome, wait, and look again.
    RequestAndWait,
    /// Run the call, record and announce its outcome: the call is done.
    ExecuteAndReport,
    /// Become the primary node with the log this node has, and look again.
    BecomeServer,
    /// Connect to the new primary node at the address, and look again.
    ReconnectTo(HostAddr),
}

/// The step for an observation. A member rebuilds first when it must;
/// otherwise it waits for the outcome from the primary node. The primary
/// node runs the call unless its outcome is already recorded.
pub open spec fn step_for(obs: Observation) -> Step {
    match obs {
        Observation::Client { rebuild, has_value } => match rebuild {
            ClientRebuild::NotNeeded => if has_value {
                Step::Proceed
            } else {
                Step::RequestAndWait
            },
            ClientRebuild::Server => Step::BecomeServer,
            ClientRebuild::Client(addr) => Step::ReconnectTo(addr),
        },
        Observation::Server { has_value } => if has_value {
            Step::Proceed
        } else {
            Step::ExecuteAndReport
        },
    }
}

/// The step ends the work on the current call.
pub open spec fn finishes_call(step: Step) -> bool {
    step is Proceed || step is ExecuteAndReport
}

pub fn next_step(obs: Observation) -> (step: Step)
    ensures
        step == step_for(obs),
{
    match obs {
        Observation::Client { rebuild, has_value } => match rebuild {
            ClientRebuild::NotNeeded => if has_value {
                Step::Proceed
            } else {
                Step::RequestAndWait
            },
            ClientRebuild::Server => Step::BecomeServer,
            ClientRebuild::Client(addr) => Step::ReconnectTo(addr),
        },
        Observation::Server { has_value } => if has_value {
            Step::Proceed
        } else {
            Step::ExecuteAndReport
        },
    }
}

/// Where the runner stands in the program's sequence of external calls:
/// the index of the log entry of the current call.
#[derive(Debug)]
pub struct CallCursor {
    log_index: u64,
}

impl CallCursor {
    pub closed spec fn spec_log_index(&self) -> u64 {
        self.log_index
    }

    /// Before the first call.
    pub fn new() -> (r: Self)
        ensures
            r.spec_log_index() == 0,
    {
        CallCursor { log_index: 0 }
    }

    /// The index of the log entry of the current call.
    pub fn log_index(&self) -> (r: u64)
        ensures
            r == self.spec_log_index(),
    {
        self.log_index
    }

    /// The current call is done: the next call uses the next log entry.
    pub fn finish_call(&mut self, step: &Step)
        requires
            finishes_call(*step),
            old(self).spec_log_index() < u64::MAX,
        ensures
            final(self).spec_log_index() == old(self).spec_log_index() + 1,
    {
        self.log_index = self.log_index + 1;
    }
}

/// A member acts on a rebuild decision before it looks at the log: the
/// decision alone fixes the step, becoming the primary node or reconnecting
/// to the given address, whether the entry is known or not.
pub proof fn lemma_rebuild_comes_first(rebuild: ClientRebuild, has_value: bool)
    ensures
        rebuild is Server ==> step_for(Observation::Client { rebuild, has_value }) is BecomeServer,
        rebuild matches ClientRebuild::Client(a) ==> step_for(
            Observation::Client { rebuild, has_value },
        ) == Step::ReconnectTo(a),
        !(rebuild is NotNeeded) ==> step_for(Observation::Client { rebuild, has_value: true })
            == step_for(Observation::Client { rebuild, has_value: false }),
{
}

/// A member that needs no rebuild waits for an unknown entry, asking the
/// primary node for it, and never changes role on its own.
pub proof fn lemma_member_waits_for_unknown(has_value: bool)
    ensures
        step_for(Observation::Client { rebuild: ClientRebuild::NotNeeded, has_value }) == if has_value {
            Step::Proceed
        } else {
            Step::RequestAndWait
        },
{
}

/// A call is run only by the primary node, and only when its outcome is not
/// recorded; a call whose outcome is recorded is never run again.
pub proof fn lemma_runs_only_when_unrecorded(obs: Observation)
    ensures
        step_for(obs) is ExecuteAndReport <==> obs == (Observation::Server { has_value: false }),
{
}

/// A call is done exactly when its outcome is known to the node or it has
/// just run the call as the primary node.
pub proof fn lemma_done_when_known(obs: Observation)
    ensures
        finishes_call(step_for(obs)) <==> match obs {
            Observation::Client { rebuild, has_value } => rebuild is NotNeeded && has_value,
            Observation::Server { .. } => true,
        },
{
}

} // verus!
