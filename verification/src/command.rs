//! A requested chain mutation together with the single-use channel on which
//! its requester waits for the answer.

use tokio::sync::oneshot::{Receiver, Sender};
use vstd::prelude::*;
use crate::error::Error;
use crate::extender::LogChainExtender;
use crate::logs::LogsBuilder;
use crate::request::{Mutation, Outcome, Request};
use crate::types::{LogId, LogletParams, Lsn, ProviderKind, SealMetadata, SegmentIndex};

verus! {

/// The sending half of tokio's one-shot channel. Nothing inside it is
/// visible to the proofs: it is only carried and, once, sent on.
#[verifier::external_type_specification]
#[verifier::external_body]
#[verifier::reject_recursive_types(T)]
pub struct ExSender<T>(tokio::sync::oneshot::Sender<T>);

/// The receiving half of tokio's one-shot channel, handed to the requester
/// untouched.
#[verifier::external_type_specification]
#[verifier::external_body]
#[verifier::reject_recursive_types(T)]
pub struct ExReceiver<T>(tokio::sync::oneshot::Receiver<T>);

/// The error with which tokio's one-shot receiver reports that its sender
/// is gone. It occurs in the receiver's interface only.
#[verifier::external_type_specification]
#[verifier::external_body]
pub struct ExRecvError(tokio::sync::oneshot::error::RecvError);

/// `tokio::sync::oneshot::channel` makes a fresh pair of sender and
/// receiver. Nothing is claimed of the pair.
pub assume_specification<T>[ tokio::sync::oneshot::channel::<T> ]() -> (pair: (
    Sender<T>,
    Receiver<T>,
));

/// `tokio::sync::oneshot::Sender::send` hands the value to the receiver, or,
/// if the receiver is gone, gives the same value back as the error. Which of
/// the two happens is not claimed.
pub assume_specification<T>[ tokio::sync::oneshot::Sender::<T>::send ](
    tx: Sender<T>,
    t: T,
) -> (result: Result<(), T>)
    ensures
        result is Err ==> result->Err_0 == t,
;

/// The two-phase answer of one request: a result is staged while the batch
/// is validated, and only `complete` or `fail` lets the requester see one.
#[verifier::reject_recursive_types(T)]
pub struct OpOutput<T> {
    tx: Sender<Result<T, Error>>,
    staged_result: Option<Result<T, Error>>,
}

impl<T: Copy> OpOutput<T> {
    /// The result that was staged, if one was.
    pub closed spec fn staged(&self) -> Option<Result<T, Error>> {
        self.staged_result
    }

    /// An output with nothing staged, and the receiver on which its one
    /// answer will arrive.
    pub fn channel() -> (pair: (Receiver<Result<T, Error>>, Self))
        ensures
            pair.1.staged() is None,
    {
        let (tx, rx) = tokio::sync::oneshot::channel();
        (rx, OpOutput { tx, staged_result: None })
    }

    /// Records the result of validation. The requester does not see it yet.
    pub fn stage_output(&mut self, result: Result<T, Error>)
        requires
            old(self).staged() is None,
        ensures
            final(self).staged() == Some(result),
    {
        self.staged_result = Some(result);
    }

    /// Answers the requester with `err`, whatever was staged, and returns
    /// what was delivered. A requester that has gone away is no error.
    pub fn fail(self, err: Error) -> (delivered: Result<T, Error>)
        ensures
            delivered == Err::<T, Error>(err),
    {
        let _ = self.tx.send(Err(err));
        Err(err)
    }

    /// Answers the requester with the staged result and returns what was
    /// delivered. A requester that has gone away is no error.
    pub fn complete(self) -> (delivered: Result<T, Error>)
        requires
            self.staged() is Some,
        ensures
            Some(delivered) == self.staged(),
    {
        let result = self.staged_result.unwrap();
        let _ = self.tx.send(result);
        result
    }
}

/// What a command does to its chain, with the channel for the answer.
#[allow(inconsistent_fields)]
pub enum ChainOp {
    Extend { base_lsn: Lsn, provider: ProviderKind, params: LogletParams, response: OpOutput<()> },
    SealChain { tail_lsn: Lsn, metadata: SealMetadata, response: OpOutput<Lsn> },
}

/// One chain mutation on its way through a batch.
///
/// A command is made by `extend` or `seal_chain`, validated once by
/// `stage`, and consumed by `complete` or `fail`, which deliver its one
/// answer.
pub struct LogChainCommand {
    log_id: LogId,
    last_segment_index: SegmentIndex,
    op: ChainOp,
}

impl LogChainCommand {
    /// What the command asks for.
    pub closed spec fn request(&self) -> Request {
        Request {
            log_id: self.log_id,
            expected: self.last_segment_index,
            mutation: match self.op {
                ChainOp::Extend { base_lsn, provider, params, .. } => Mutation::Extend {
                    base_lsn,
                    provider,
                    params: params@,
                },
                ChainOp::SealChain { tail_lsn, metadata, .. } => Mutation::Seal {
                    tail_lsn,
                    metadata: metadata@,
                },
            },
        }
    }

    /// The answer that validation has staged, if the command was validated.
    pub closed spec fn staged(&self) -> Option<Outcome> {
        match self.op {
            ChainOp::Extend { response, .. } => match response.staged() {
                Some(r) => Some(Outcome::Extended(r)),
                None => None,
            },
            ChainOp::SealChain { response, .. } => match response.staged() {
                Some(r) => Some(Outcome::Sealed(r)),
                None => None,
            },
        }
    }

    /// A command that extends the chain of `log_id` by a segment at
    /// `base_lsn`, provided the chain's tail has index `last_segment_index`;
    /// and the receiver of its answer.
    pub fn extend(
        log_id: LogId,
        last_segment_index: SegmentIndex,
        base_lsn: Lsn,
        provider: ProviderKind,
        params: LogletParams,
    ) -> (pair: (Receiver<Result<(), Error>>, Self))
        ensures
            pair.1.request() == (Request {
                log_id,
                expected: last_segment_index,
                mutation: Mutation::Extend { base_lsn, provider, params: params@ },
            }),
            pair.1.staged() is None,
    {
        let (rx, response) = OpOutput::channel();
        let cmd = LogChainCommand {
            log_id,
            last_segment_index,
            op: ChainOp::Extend { base_lsn, provider, params, response },
        };
        (rx, cmd)
    }

    /// A command that seals the chain of `log_id` at `tail_lsn`, provided
    /// the chain's tail has index `last_segment_index`; and the receiver of
    /// its answer.
    pub fn seal_chain(
        log_id: LogId,
        last_segment_index: SegmentIndex,
        tail_lsn: Lsn,
        metadata: SealMetadata,
    ) -> (pair: (Receiver<Result<Lsn, Error>>, Self))
        ensures
            pair.1.request() == (Request {
                log_id,
                expected: last_segment_index,
                mutation: Mutation::Seal { tail_lsn, metadata: metadata@ },
            }),
            pair.1.staged() is None,
    {
        let (rx, response) = OpOutput::channel();
        let cmd = LogChainCommand {
            log_id,
            last_segment_index,
            op: ChainOp::SealChain { tail_lsn, metadata, response },
        };
        (rx, cmd)
    }

    pub fn log_id(&self) -> (log_id: LogId)
        ensures
            log_id == self.request().log_id,
    {
        self.log_id
    }

    pub fn last_segment_index(&self) -> (index: SegmentIndex)
        ensures
            index == self.request().expected,
    {
        self.last_segment_index
    }

    pub fn is_staged(&self) -> (staged: bool)
        ensures
            staged == self.staged() is Some,
    {
        match &self.op {
            ChainOp::Extend { response, .. } => response.staged_result.is_some(),
            ChainOp::SealChain { response, .. } => response.staged_result.is_some(),
        }
    }

    /// Validates the command against `builder`, applies it there if it is
    /// valid, and stages the answer. The requester learns nothing yet.
    pub fn stage(&mut self, builder: &mut LogsBuilder)
        requires
            old(self).staged() is None,
            old(builder).wf(),
        ensures
            final(builder).wf(),
            final(self).request() == old(self).request(),
            final(self).staged() == Some(old(self).request().outcome(old(builder)@)),
            final(builder)@ == old(self).request().applied(old(builder)@),
    {
        match &mut self.op {
            ChainOp::Extend { base_lsn, provider, params, response } => {
                response.stage_output(
                    LogChainExtender::extend_log_chain(
                        builder,
                        self.log_id,
                        self.last_segment_index,
                        *base_lsn,
                        *provider,
                        params,
                    ),
                );
            },
            ChainOp::SealChain { tail_lsn, metadata, response } => {
                response.stage_output(
                    LogChainExtender::seal_log_chain(
                        builder,
                        self.log_id,
                        self.last_segment_index,
                        *tail_lsn,
                        metadata,
                    ),
                );
            },
        }
    }

    /// Answers the requester with `err` and returns what was delivered.
    pub fn fail(self, err: Error) -> (delivered: Outcome)
        ensures
            delivered == self.request().failed(err),
    {
        match self.op {
            ChainOp::Extend { response, .. } => Outcome::Extended(response.fail(err)),
            ChainOp::SealChain { response, .. } => Outcome::Sealed(response.fail(err)),
        }
    }

    /// Answers the requester with the staged answer and returns what was
    /// delivered.
    pub fn complete(self) -> (delivered: Outcome)
        requires
            self.staged() is Some,
        ensures
            Some(delivered) == self.staged(),
    {
        match self.op {
            ChainOp::Extend { response, .. } => Outcome::Extended(response.complete()),
            ChainOp::SealChain { response, .. } => Outcome::Sealed(response.complete()),
        }
    }
}

} // verus!
