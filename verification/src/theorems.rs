//! What holds of every batch, proved from the meaning of the requests.

use vstd::prelude::*;
use crate::error::{AdminError, BuilderError, Error};
use crate::logs::{logs_wf, LogsView};
use crate::request::{logs_after, outcome_at, Mutation, Outcome, Request};
use crate::types::{LogId, SegmentIndex};

verus! {

/// Two mappings hold the same chain for `log_id`, or both hold none.
pub open spec fn same_chain(a: LogsView, b: LogsView, log_id: LogId) -> bool {
    &&& a.contains_key(log_id) == b.contains_key(log_id)
    &&& a.contains_key(log_id) ==> a[log_id] == b[log_id]
}

/// The requests among `requests` that address `log_id`, in their order.
pub open spec fn addressed_to(requests: Seq<Request>, log_id: LogId) -> Seq<Request> {
    requests.filter(|r: Request| r.log_id == log_id)
}

/// A request leaves the chains of all other logs as they were.
pub proof fn lemma_applied_elsewhere(request: Request, logs: LogsView, log_id: LogId)
    requires
        log_id != request.log_id,
    ensures
        same_chain(request.applied(logs), logs, log_id),
{
}

/// What a request is answered, and what it leaves of its own chain, depends
/// on nothing but that chain.
pub proof fn lemma_applied_own_chain(request: Request, a: LogsView, b: LogsView)
    requires
        same_chain(a, b, request.log_id),
    ensures
        request.outcome(a) == request.outcome(b),
        same_chain(request.applied(a), request.applied(b), request.log_id),
{
}

/// Validating a batch in two parts is validating it whole.
pub proof fn lemma_logs_after_concat(logs: LogsView, first: Seq<Request>, second: Seq<Request>)
    ensures
        logs_after(logs, first + second) == logs_after(logs_after(logs, first), second),
    decreases second.len(),
{
    if second.len() == 0 {
        assert(first + second =~= first);
    } else {
        lemma_logs_after_concat(logs, first, second.drop_last());
        assert((first + second).drop_last() =~= first + second.drop_last());
        assert((first + second).last() == second.last());
    }
}

/// The chain of a log after a batch is the chain that the batch's requests
/// to that log alone would have left.
pub proof fn lemma_chain_after_own_requests(logs: LogsView, requests: Seq<Request>, log_id: LogId)
    ensures
        same_chain(
            logs_after(logs, requests),
            logs_after(logs, addressed_to(requests, log_id)),
            log_id,
        ),
    decreases requests.len(),
{
    reveal(Seq::filter);
    if requests.len() > 0 {
        let last = requests.last();
        let before = requests.drop_last();
        let own = addressed_to(before, log_id);
        lemma_chain_after_own_requests(logs, before, log_id);
        if last.log_id == log_id {
            assert(addressed_to(requests, log_id) == own.push(last));
            assert(own.push(last).drop_last() =~= own);
            assert(own.push(last).last() == last);
            lemma_applied_own_chain(last, logs_after(logs, before), logs_after(logs, own));
        } else {
            assert(addressed_to(requests, log_id) == own);
            lemma_applied_elsewhere(last, logs_after(logs, before), log_id);
        }
    }
}

/// The answer that a request of a batch is given is the answer that its
/// validation alone gives against the snapshot as the earlier requests to
/// the same log have left it: requests to other logs have no part in it.
pub proof fn outcome_depends_on_own_log(logs: LogsView, requests: Seq<Request>, at: int)
    requires
        0 <= at < requests.len(),
    ensures
        outcome_at(logs, requests, at) == requests[at].outcome(
            logs_after(logs, addressed_to(requests.take(at), requests[at].log_id)),
        ),
{
    let log_id = requests[at].log_id;
    lemma_chain_after_own_requests(logs, requests.take(at), log_id);
    lemma_applied_own_chain(
        requests[at],
        logs_after(logs, requests.take(at)),
        logs_after(logs, addressed_to(requests.take(at), log_id)),
    );
}

/// A request whose expected index is not the index of the chain's tail is
/// answered with `SegmentMismatch`, which names both indices, and changes
/// nothing. This holds of both kinds of request.
pub proof fn stale_request_is_mismatch(logs: LogsView, request: Request)
    requires
        logs.contains_key(request.log_id),
        logs[request.log_id].tail_index() != request.expected,
    ensures
        request.outcome(logs) == request.failed(
            Error::Admin(
                AdminError::SegmentMismatch {
                    expected: request.expected,
                    found: logs[request.log_id].tail_index(),
                },
            ),
        ),
        request.applied(logs) == logs,
{
}

/// A request that is answered with an error changes nothing.
pub proof fn rejected_request_changes_nothing(logs: LogsView, request: Request)
    requires
        !request.outcome(logs).is_success(),
    ensures
        request.applied(logs) == logs,
{
}

/// A request keeps every chain well formed, and neither adds a log nor
/// removes one.
pub proof fn request_keeps_chains_well_formed(logs: LogsView, request: Request)
    requires
        logs_wf(logs),
    ensures
        logs_wf(request.applied(logs)),
        request.applied(logs).dom() == logs.dom(),
{
    let after = request.applied(logs);
    if logs.contains_key(request.log_id) {
        let chain = logs[request.log_id];
        match request.mutation {
            Mutation::Extend { base_lsn, provider, params } => {
                chain.lemma_append_keeps_wf(base_lsn, provider, params);
            },
            Mutation::Seal { tail_lsn, metadata } => {
                chain.lemma_seal_keeps_wf(tail_lsn, metadata);
            },
        }
    }
    assert forall|id: LogId| #[trigger] after.contains_key(id) implies after[id].wf() by {
        if id != request.log_id {
            assert(logs.contains_key(id));
        }
    }
    assert(after.dom() =~= logs.dom());
}

/// A batch keeps every chain well formed, and neither adds a log nor
/// removes one.
pub proof fn batch_keeps_chains_well_formed(logs: LogsView, requests: Seq<Request>)
    requires
        logs_wf(logs),
    ensures
        logs_wf(logs_after(logs, requests)),
        logs_after(logs, requests).dom() == logs.dom(),
    decreases requests.len(),
{
    if requests.len() > 0 {
        batch_keeps_chains_well_formed(logs, requests.drop_last());
        request_keeps_chains_well_formed(
            logs_after(logs, requests.drop_last()),
            requests.last(),
        );
    }
}

/// A sealed chain stays exactly as it is, whatever is asked of it.
pub proof fn sealed_chain_is_final(logs: LogsView, requests: Seq<Request>, log_id: LogId)
    requires
        logs.contains_key(log_id),
        logs[log_id].is_sealed(),
    ensures
        logs_after(logs, requests).contains_key(log_id),
        logs_after(logs, requests)[log_id] == logs[log_id],
    decreases requests.len(),
{
    if requests.len() > 0 {
        sealed_chain_is_final(logs, requests.drop_last(), log_id);
    }
}

/// Once a seal has succeeded, no later extension of the same chain in the
/// same batch succeeds. An extension that expects the tail that the seal
/// expected is refused for the chain's being sealed; one that expects
/// another tail is refused for the mismatch.
pub proof fn extend_after_seal_fails(logs: LogsView, requests: Seq<Request>, seal: int, extend: int)
    requires
        0 <= seal < extend < requests.len(),
        requests[seal].mutation is Seal,
        requests[extend].mutation is Extend,
        requests[seal].log_id == requests[extend].log_id,
        outcome_at(logs, requests, seal).is_success(),
    ensures
        outcome_at(logs, requests, extend) == Outcome::Extended(
            Err(
                if requests[extend].expected == requests[seal].expected {
                    Error::Admin(AdminError::ChainBuilder(BuilderError::ChainPermanentlySealed))
                } else {
                    Error::Admin(
                        AdminError::SegmentMismatch {
                            expected: requests[extend].expected,
                            found: requests[seal].expected,
                        },
                    )
                },
            ),
        ),
        requests[extend].expected == requests[seal].expected ==> outcome_at(
            logs,
            requests,
            extend,
        ).error()->Some_0.is_structural(),
{
    let log_id = requests[seal].log_id;
    let sealed = logs_after(logs, requests.take(seal + 1));
    let between = requests.subrange(seal + 1, extend);
    crate::request::lemma_logs_after_step(logs, requests, seal);
    assert(sealed.contains_key(log_id) && sealed[log_id].is_sealed());
    assert(requests.take(extend) =~= requests.take(seal + 1) + between);
    lemma_logs_after_concat(logs, requests.take(seal + 1), between);
    sealed_chain_is_final(sealed, between, log_id);
}

/// An extension that succeeds moves the tail on by one, so that a seal
/// which comes next in the batch, expects the new tail and does not lie
/// before the new segment's base succeeds as well, with its own Lsn.
pub proof fn extend_then_seal_succeeds(logs: LogsView, requests: Seq<Request>, at: int)
    requires
        0 <= at,
        at + 1 < requests.len(),
        requests[at].mutation is Extend,
        requests[at + 1].mutation is Seal,
        requests[at].log_id == requests[at + 1].log_id,
        outcome_at(logs, requests, at).is_success(),
        requests[at + 1].expected == SegmentIndex((requests[at].expected.0 + 1) as u32),
        requests[at].mutation->base_lsn.0 <= requests[at + 1].mutation->tail_lsn.0,
    ensures
        outcome_at(logs, requests, at) == Outcome::Extended(Ok(())),
        outcome_at(logs, requests, at + 1) == Outcome::Sealed(
            Ok(requests[at + 1].mutation->tail_lsn),
        ),
{
    crate::request::lemma_logs_after_step(logs, requests, at);
}

} // verus!
