//! What a chain mutation asks for and what it is answered, as mathematics:
//! the meaning that the executable code is held to.

use vstd::prelude::*;
use crate::error::{AdminError, Error};
use crate::logs::LogsView;
use crate::types::{LogId, Lsn, ProviderKind, SegmentIndex};

verus! {

/// The two kinds of mutation. There is no third.
pub enum Mutation {
    Extend { base_lsn: Lsn, provider: ProviderKind, params: Seq<char> },
    Seal { tail_lsn: Lsn, metadata: Seq<char> },
}

/// One requested mutation: the log, the tail index that the requester
/// believes the chain to have, and what to do.
pub struct Request {
    pub log_id: LogId,
    pub expected: SegmentIndex,
    pub mutation: Mutation,
}

/// The terminal answer to a request: one variant per kind of mutation.
#[derive(Clone, Copy, Debug, PartialEq, Eq)]
pub enum Outcome {
    /// Answer to an extension: nothing, or why the chain was not extended.
    Extended(Result<(), Error>),
    /// Answer to a seal: the chain's final Lsn, or why it was not sealed.
    Sealed(Result<Lsn, Error>),
}

impl Outcome {
    pub open spec fn is_success(self) -> bool {
        match self {
            Outcome::Extended(r) => r is Ok,
            Outcome::Sealed(r) => r is Ok,
        }
    }

    /// The error of a failed outcome.
    pub open spec fn error(self) -> Option<Error> {
        match self {
            Outcome::Extended(Err(e)) => Some(e),
            Outcome::Sealed(Err(e)) => Some(e),
            _ => None,
        }
    }
}

/// The check that both mutations begin with: the log must be known and its
/// tail must carry the expected index.
pub open spec fn tail_check(logs: LogsView, log_id: LogId, expected: SegmentIndex) -> Result<
    (),
    Error,
> {
    if !logs.contains_key(log_id) {
        Err(Error::UnknownLogId(log_id))
    } else if logs[log_id].tail_index() != expected {
        Err(
            Error::Admin(
                AdminError::SegmentMismatch { expected, found: logs[log_id].tail_index() },
            ),
        )
    } else {
        Ok(())
    }
}

/// The answer to an extension of `log_id` at `base_lsn`.
pub open spec fn extend_result(
    logs: LogsView,
    log_id: LogId,
    expected: SegmentIndex,
    base_lsn: Lsn,
) -> Result<(), Error> {
    match tail_check(logs, log_id, expected) {
        Err(e) => Err(e),
        Ok(_) => match logs[log_id].append_result(base_lsn) {
            Ok(_) => Ok(()),
            Err(e) => Err(Error::Admin(AdminError::ChainBuilder(e))),
        },
    }
}

/// The mapping after an extension was attempted: changed in the one chain
/// if the attempt succeeds, untouched if it does not.
pub open spec fn after_extend(
    logs: LogsView,
    log_id: LogId,
    expected: SegmentIndex,
    base_lsn: Lsn,
    provider: ProviderKind,
    params: Seq<char>,
) -> LogsView {
    if extend_result(logs, log_id, expected, base_lsn) is Ok {
        logs.insert(log_id, logs[log_id].after_append(base_lsn, provider, params))
    } else {
        logs
    }
}

/// The answer to a seal of `log_id` at `tail_lsn`.
pub open spec fn seal_result(
    logs: LogsView,
    log_id: LogId,
    expected: SegmentIndex,
    tail_lsn: Lsn,
) -> Result<Lsn, Error> {
    match tail_check(logs, log_id, expected) {
        Err(e) => Err(e),
        Ok(_) => match logs[log_id].seal_result(tail_lsn) {
            Ok(lsn) => Ok(lsn),
            Err(e) => Err(Error::Admin(AdminError::ChainBuilder(e))),
        },
    }
}

/// The mapping after a seal was attempted: changed in the one chain if the
/// attempt succeeds, untouched if it does not.
pub open spec fn after_seal(
    logs: LogsView,
    log_id: LogId,
    expected: SegmentIndex,
    tail_lsn: Lsn,
    metadata: Seq<char>,
) -> LogsView {
    if seal_result(logs, log_id, expected, tail_lsn) is Ok {
        logs.insert(log_id, logs[log_id].after_seal(tail_lsn, metadata))
    } else {
        logs
    }
}

impl Request {
    /// The answer that validating this request against `logs` gives.
    pub open spec fn outcome(self, logs: LogsView) -> Outcome {
        match self.mutation {
            Mutation::Extend { base_lsn, .. } => Outcome::Extended(
                extend_result(logs, self.log_id, self.expected, base_lsn),
            ),
            Mutation::Seal { tail_lsn, .. } => Outcome::Sealed(
                seal_result(logs, self.log_id, self.expected, tail_lsn),
            ),
        }
    }

    /// The mapping that validating this request against `logs` leaves.
    pub open spec fn applied(self, logs: LogsView) -> LogsView {
        match self.mutation {
            Mutation::Extend { base_lsn, provider, params } => after_extend(
                logs,
                self.log_id,
                self.expected,
                base_lsn,
                provider,
                params,
            ),
            Mutation::Seal { tail_lsn, metadata } => after_seal(
                logs,
                self.log_id,
                self.expected,
                tail_lsn,
                metadata,
            ),
        }
    }

    /// The answer that every request of a failed cycle is given.
    pub open spec fn failed(self, err: Error) -> Outcome {
        match self.mutation {
            Mutation::Extend { .. } => Outcome::Extended(Err(err)),
            Mutation::Seal { .. } => Outcome::Sealed(Err(err)),
        }
    }
}

/// The mapping after the requests were validated one after the other, each
/// against what its predecessors left.
pub open spec fn logs_after(logs: LogsView, requests: Seq<Request>) -> LogsView
    decreases requests.len(),
{
    if requests.len() == 0 {
        logs
    } else {
        requests.last().applied(logs_after(logs, requests.drop_last()))
    }
}

/// Validating one request more applies it to what the requests before it
/// left.
pub proof fn lemma_logs_after_step(logs: LogsView, requests: Seq<Request>, at: int)
    requires
        0 <= at < requests.len(),
    ensures
        logs_after(logs, requests.take(at + 1)) == requests[at].applied(
            logs_after(logs, requests.take(at)),
        ),
{
    assert(requests.take(at + 1).drop_last() =~= requests.take(at));
    assert(requests.take(at + 1).last() == requests[at]);
}

/// The answer to the request at position `at` of a batch that starts from
/// `logs`: the request sees what the requests before it left.
pub open spec fn outcome_at(logs: LogsView, requests: Seq<Request>, at: int) -> Outcome
    recommends
        0 <= at < requests.len(),
{
    requests[at].outcome(logs_after(logs, requests.take(at)))
}

} // verus!
