//! The coordinator: it validates a batch of chain mutations against one
//! snapshot of the metadata, and tells every requester how the batch ended.

use vstd::prelude::*;
use crate::command::LogChainCommand;
use crate::error::{AdminError, Error, ReadModifyWriteError};
use crate::logs::{Logs, LogsBuilder};
use crate::request::{
    after_extend, after_seal, extend_result, lemma_logs_after_step, logs_after, outcome_at,
    seal_result, Outcome, Request,
};
use crate::types::{LogId, LogletParams, Lsn, ProviderKind, SealMetadata, SegmentIndex};

verus! {

/// The most requests that one cycle takes from the queue.
pub const MAX_BATCH_SIZE_LOG_CHAIN_EXTENSIONS: usize = 128;

/// Where the coordinator stands in its cycle.
#[derive(Clone, Copy, Debug, PartialEq, Eq, Structural)]
pub enum Phase {
    /// Between two cycles.
    Idle,
    /// Waiting for the queue to hand over a batch.
    Collecting,
    /// Holding a batch that has not been validated yet.
    Applying,
    /// Holding a batch whose commit is under way.
    Committing,
    /// Stopped for good.
    Terminated,
}

/// The requests that a sequence of commands asks for, in order.
pub open spec fn requests_of(commands: Seq<LogChainCommand>) -> Seq<Request> {
    commands.map_values(|c: LogChainCommand| c.request())
}

/// What validation has staged on each of a sequence of commands, in order.
pub open spec fn staged_of(commands: Seq<LogChainCommand>) -> Seq<Option<Outcome>> {
    commands.map_values(|c: LogChainCommand| c.staged())
}

pub open spec fn none_staged(staged: Seq<Option<Outcome>>) -> bool {
    forall|i: int| 0 <= i < staged.len() ==> (#[trigger] staged[i]) is None
}

pub open spec fn all_staged(staged: Seq<Option<Outcome>>) -> bool {
    forall|i: int| 0 <= i < staged.len() ==> (#[trigger] staged[i]) is Some
}

/// Coalesces chain mutations into one update of the log metadata per
/// cycle.
///
/// The coordinator decides; whoever drives it waits on the queue and talks
/// to the store. One cycle is `begin_cycle`, `batch_collected`,
/// `apply_batch` as the mutation of the store's read-modify-write, and
/// `commit_finished` with what the store answered. A chain is only changed
/// if its tail has the index that the command expects.
pub struct LogChainExtender {
    phase: Phase,
    buffer: Vec<LogChainCommand>,
    shutdown_requested: bool,
}

impl LogChainExtender {
    pub closed spec fn phase(&self) -> Phase {
        self.phase
    }

    /// The requests of the batch in hand, in order of arrival.
    pub closed spec fn batch(&self) -> Seq<Request> {
        requests_of(self.buffer@)
    }

    /// What validation has staged for each request of the batch in hand.
    pub closed spec fn staged(&self) -> Seq<Option<Outcome>> {
        staged_of(self.buffer@)
    }

    /// Whether shutdown was asked for while a batch was in hand.
    pub closed spec fn shutdown_requested(&self) -> bool {
        self.shutdown_requested
    }

    /// What every constructor establishes and every method preserves: a
    /// batch is in hand exactly while it is applied and committed, it is
    /// never empty nor over the limit, nothing is staged before validation,
    /// and afterwards validation has staged either everything or, where no
    /// metadata was there to validate against, nothing.
    pub open spec fn wf(&self) -> bool {
        &&& self.staged().len() == self.batch().len()
        &&& self.batch().len() <= MAX_BATCH_SIZE_LOG_CHAIN_EXTENSIONS
        &&& match self.phase() {
            Phase::Idle | Phase::Collecting => self.batch().len() == 0
                && !self.shutdown_requested(),
            Phase::Terminated => self.batch().len() == 0,
            Phase::Applying => self.batch().len() > 0 && none_staged(self.staged()),
            Phase::Committing => self.batch().len() > 0 && (none_staged(self.staged())
                || all_staged(self.staged())),
        }
    }

    /// A coordinator between cycles, with no batch in hand.
    pub fn new() -> (extender: Self)
        ensures
            extender.wf(),
            extender.phase() == Phase::Idle,
            !extender.shutdown_requested(),
    {
        LogChainExtender { phase: Phase::Idle, buffer: Vec::new(), shutdown_requested: false }
    }

    pub fn current_phase(&self) -> (phase: Phase)
        ensures
            phase == self.phase(),
    {
        self.phase
    }

    pub fn is_terminated(&self) -> (terminated: bool)
        ensures
            terminated == (self.phase() == Phase::Terminated),
    {
        match self.phase {
            Phase::Terminated => true,
            _ => false,
        }
    }

    /// How many requests the batch in hand holds.
    pub fn batch_len(&self) -> (n: usize)
        ensures
            n == self.batch().len(),
    {
        self.buffer.len()
    }

    /// Whether the batch in hand was validated, so that its commit may
    /// succeed.
    pub fn is_validated(&self) -> (validated: bool)
        requires
            self.wf(),
        ensures
            validated == (self.phase() == Phase::Committing && all_staged(self.staged())),
    {
        match self.phase {
            Phase::Committing => {
                proof {
                    assert(self.staged()[0] == self.buffer@[0].staged());
                }
                self.buffer[0].is_staged()
            },
            _ => false,
        }
    }

    /// Starts a cycle. The answer is the most requests that may be taken
    /// from the queue for it.
    pub fn begin_cycle(&mut self) -> (limit: usize)
        requires
            old(self).wf(),
            old(self).phase() == Phase::Idle,
        ensures
            final(self).wf(),
            final(self).phase() == Phase::Collecting,
            limit == MAX_BATCH_SIZE_LOG_CHAIN_EXTENSIONS,
    {
        self.phase = Phase::Collecting;
        MAX_BATCH_SIZE_LOG_CHAIN_EXTENSIONS
    }

    /// Takes what the queue handed over and answers with the number of
    /// requests taken. An empty batch means that the queue is closed for
    /// good: the coordinator stops. Any other batch is now in hand, to be
    /// applied.
    pub fn batch_collected(&mut self, batch: Vec<LogChainCommand>) -> (received: usize)
        requires
            old(self).wf(),
            old(self).phase() == Phase::Collecting,
            batch@.len() <= MAX_BATCH_SIZE_LOG_CHAIN_EXTENSIONS,
            none_staged(staged_of(batch@)),
        ensures
            final(self).wf(),
            received == batch@.len(),
            final(self).batch() == requests_of(batch@),
            final(self).phase() == if received == 0 {
                Phase::Terminated
            } else {
                Phase::Applying
            },
            !final(self).shutdown_requested(),
    {
        let received = batch.len();
        self.buffer = batch;
        self.phase = if received == 0 {
            Phase::Terminated
        } else {
            Phase::Applying
        };
        received
    }

    /// Asks the coordinator to stop, and answers whether it has stopped.
    ///
    /// Between cycles, and while it waits for a batch, it stops at once. A
    /// batch in hand is first brought to its end, so that each of its
    /// requests is answered: the coordinator stops when the commit has
    /// finished.
    pub fn cancel(&mut self) -> (stopped: bool)
        requires
            old(self).wf(),
        ensures
            final(self).wf(),
            final(self).batch() == old(self).batch(),
            final(self).staged() == old(self).staged(),
            match old(self).phase() {
                Phase::Idle | Phase::Collecting | Phase::Terminated => {
                    &&& stopped
                    &&& final(self).phase() == Phase::Terminated
                    &&& final(self).shutdown_requested() == old(self).shutdown_requested()
                },
                Phase::Applying | Phase::Committing => {
                    &&& !stopped
                    &&& final(self).phase() == old(self).phase()
                    &&& final(self).shutdown_requested()
                },
            },
    {
        match self.phase {
            Phase::Idle | Phase::Collecting | Phase::Terminated => {
                self.phase = Phase::Terminated;
                true
            },
            Phase::Applying | Phase::Committing => {
                self.shutdown_requested = true;
                false
            },
        }
    }

    /// Validates the batch in hand against `snapshot`, request by request
    /// in order of arrival, each against what its predecessors left, and
    /// stages every answer. This is the mutation that the store is asked to
    /// commit.
    ///
    /// Without a snapshot nothing is staged and the answer is
    /// `LogsMetadataNotProvisioned`. With one, the answer is the mapping
    /// that the valid requests of the batch leave; requests that were found
    /// invalid change nothing and do not fail the batch.
    pub fn apply_batch(&mut self, snapshot: Option<Logs>) -> (result: Result<Logs, Error>)
        requires
            old(self).wf(),
            old(self).phase() == Phase::Applying,
            snapshot is Some ==> snapshot->Some_0.wf(),
        ensures
            final(self).wf(),
            final(self).phase() == Phase::Committing,
            final(self).batch() == old(self).batch(),
            final(self).shutdown_requested() == old(self).shutdown_requested(),
            match snapshot {
                None => result == Err::<Logs, Error>(Error::LogsMetadataNotProvisioned)
                    && none_staged(final(self).staged()),
                Some(logs) => {
                    &&& result is Ok
                    &&& result->Ok_0.wf()
                    &&& result->Ok_0@ == logs_after(logs@, old(self).batch())
                    &&& forall|i: int|
                        0 <= i < old(self).batch().len() ==> (#[trigger] final(self).staged()[i])
                            == Some(outcome_at(logs@, old(self).batch(), i))
                },
            },
    {
        let logs = match snapshot {
            Some(logs) => logs,
            None => {
                self.phase = Phase::Committing;
                return Err(Error::LogsMetadataNotProvisioned);
            },
        };
        let ghost start = logs@;
        let ghost requests = self.batch();
        let mut builder = logs.into_builder();
        let mut i: usize = 0;
        proof {
            assert(requests.take(0) =~= Seq::<Request>::empty());
            assert forall|k: int| 0 <= k < self.buffer@.len() implies (#[trigger] self.buffer@[k]).staged() is None by {
                assert(self.staged()[k] is None);
            }
        }
        while i < self.buffer.len()
            invariant
                i <= self.buffer@.len(),
                self.phase == old(self).phase,
                self.shutdown_requested == old(self).shutdown_requested,
                self.buffer@.len() == requests.len(),
                forall|k: int|
                    0 <= k < requests.len() ==> (#[trigger] self.buffer@[k]).request()
                        == requests[k],
                builder.wf(),
                builder@ == logs_after(start, requests.take(i as int)),
                forall|k: int|
                    0 <= k < i ==> (#[trigger] self.buffer@[k]).staged() == Some(
                        outcome_at(start, requests, k),
                    ),
                forall|k: int|
                    i <= k < self.buffer@.len() ==> (#[trigger] self.buffer@[k]).staged() is None,
            decreases self.buffer@.len() - i,
        {
            proof {
                lemma_logs_after_step(start, requests, i as int);
            }
            self.buffer[i].stage(&mut builder);
            i = i + 1;
        }
        proof {
            assert(requests.take(i as int) =~= requests);
            assert(self.batch() =~= requests);
            assert forall|k: int| 0 <= k < requests.len() implies (#[trigger] self.staged()[k])
                == Some(outcome_at(start, requests, k)) by {
                assert(self.buffer@[k].staged() == Some(outcome_at(start, requests, k)));
            }
        }
        self.phase = Phase::Committing;
        Ok(builder.build())
    }

    /// Ends the cycle with what the store answered, delivers to every
    /// request of the batch its one answer, and returns the answers in
    /// order of arrival.
    ///
    /// After a commit that succeeded each request is told what validation
    /// staged for it: its own success or its own failure. After a commit
    /// that failed, for whatever reason, each request is told that one
    /// error, and nothing that was staged is seen by anyone; this is also
    /// how a cycle ends in which the store failed before it came to apply
    /// the batch. The coordinator is then between cycles, or stopped if it
    /// was asked to stop in the meantime.
    ///
    /// A store that reports success has applied the batch, so success is
    /// only taken for a batch that was validated.
    pub fn commit_finished(&mut self, commit: Result<(), ReadModifyWriteError>) -> (delivered: Vec<
        Outcome,
    >)
        requires
            old(self).wf(),
            old(self).phase() == Phase::Applying || old(self).phase() == Phase::Committing,
            commit is Ok ==> old(self).phase() == Phase::Committing && all_staged(
                old(self).staged(),
            ),
        ensures
            final(self).wf(),
            final(self).batch().len() == 0,
            final(self).phase() == if old(self).shutdown_requested() {
                Phase::Terminated
            } else {
                Phase::Idle
            },
            final(self).shutdown_requested() == false,
            delivered@.len() == old(self).batch().len(),
            forall|i: int|
                0 <= i < delivered@.len() ==> (#[trigger] delivered@[i]) == match commit {
                    Ok(_) => old(self).staged()[i]->Some_0,
                    Err(err) => old(self).batch()[i].failed(err.transposed()),
                },
            commit is Err ==> forall|i: int|
                0 <= i < delivered@.len() ==> (#[trigger] delivered@[i]).error() == Some(
                    commit->Err_0.transposed(),
                ),
    {
        let mut batch: Vec<LogChainCommand> = Vec::new();
        std::mem::swap(&mut self.buffer, &mut batch);
        self.phase = if self.shutdown_requested {
            Phase::Terminated
        } else {
            Phase::Idle
        };
        self.shutdown_requested = false;
        let ghost commands = batch@;
        let mut delivered: Vec<Outcome> = Vec::new();
        match commit {
            Ok(_) => {
                for cmd in it: batch
                    invariant
                        it.seq() == commands,
                        all_staged(staged_of(commands)),
                        delivered@.len() == it.index(),
                        forall|k: int|
                            0 <= k < delivered@.len() ==> Some(#[trigger] delivered@[k])
                                == commands[k].staged(),
                {
                    proof {
                        assert(staged_of(commands)[it.index() as int] is Some);
                    }
                    delivered.push(cmd.complete());
                }
            },
            Err(err) => {
                let err = err.transpose();
                for cmd in it: batch
                    invariant
                        it.seq() == commands,
                        delivered@.len() == it.index(),
                        forall|k: int|
                            0 <= k < delivered@.len() ==> (#[trigger] delivered@[k])
                                == commands[k].request().failed(err),
                {
                    delivered.push(cmd.fail(err));
                }
            },
        }
        delivered
    }

    /// Extends the chain of `log_id` by a segment at `base_lsn`.
    ///
    /// A log that the mapping does not hold gives `UnknownLogId`. A tail
    /// whose index is not `last_segment_index` gives `SegmentMismatch`, with
    /// the expected index and the one found. What the chain itself objects
    /// to is passed on unchanged. Whenever the answer is an error the
    /// mapping is left exactly as it was.
    pub fn extend_log_chain(
        builder: &mut LogsBuilder,
        log_id: LogId,
        last_segment_index: SegmentIndex,
        base_lsn: Lsn,
        provider_kind: ProviderKind,
        params: &LogletParams,
    ) -> (result: Result<(), Error>)
        requires
            old(builder).wf(),
        ensures
            final(builder).wf(),
            result == extend_result(old(builder)@, log_id, last_segment_index, base_lsn),
            final(builder)@ == after_extend(
                old(builder)@,
                log_id,
                last_segment_index,
                base_lsn,
                provider_kind,
                params@,
            ),
            result is Err ==> final(builder)@ == old(builder)@,
            old(builder)@.contains_key(log_id) && old(builder)@[log_id].tail_index()
                != last_segment_index ==> result == Err::<(), Error>(
                Error::Admin(
                    AdminError::SegmentMismatch {
                        expected: last_segment_index,
                        found: old(builder)@[log_id].tail_index(),
                    },
                ),
            ),
    {
        let mut chain = match builder.take_chain(log_id) {
            Some(chain) => chain,
            None => {
                proof {
                    assert(builder@ =~= old(builder)@);
                }
                return Err(Error::UnknownLogId(log_id));
            },
        };
        let found = chain.tail_index();
        let result = if found.0 != last_segment_index.0 {
            // tail is not what we expected.
            Err(Error::Admin(AdminError::SegmentMismatch { expected: last_segment_index, found }))
        } else {
            match chain.append_segment(base_lsn, provider_kind, params.clone()) {
                Ok(_) => Ok(()),
                Err(err) => Err(Error::Admin(AdminError::ChainBuilder(err))),
            }
        };
        builder.put_chain(log_id, chain);
        proof {
            assert(builder@ =~= after_extend(
                old(builder)@,
                log_id,
                last_segment_index,
                base_lsn,
                provider_kind,
                params@,
            ));
        }
        result
    }

    /// Seals the chain of `log_id` at `tail_lsn` and answers with the
    /// chain's final Lsn.
    ///
    /// A log that the mapping does not hold gives `UnknownLogId`. A tail
    /// whose index is not `last_segment_index` gives `SegmentMismatch`, with
    /// the expected index and the one found. What the chain itself objects
    /// to is passed on unchanged. Whenever the answer is an error the
    /// mapping is left exactly as it was.
    pub fn seal_log_chain(
        builder: &mut LogsBuilder,
        log_id: LogId,
        last_segment_index: SegmentIndex,
        tail_lsn: Lsn,
        metadata: &SealMetadata,
    ) -> (result: Result<Lsn, Error>)
        requires
            old(builder).wf(),
        ensures
            final(builder).wf(),
            result == seal_result(old(builder)@, log_id, last_segment_index, tail_lsn),
            final(builder)@ == after_seal(
                old(builder)@,
                log_id,
                last_segment_index,
                tail_lsn,
                metadata@,
            ),
            result is Err ==> final(builder)@ == old(builder)@,
            old(builder)@.contains_key(log_id) && old(builder)@[log_id].tail_index()
                != last_segment_index ==> result == Err::<Lsn, Error>(
                Error::Admin(
                    AdminError::SegmentMismatch {
                        expected: last_segment_index,
                        found: old(builder)@[log_id].tail_index(),
                    },
                ),
            ),
    {
        let mut chain = match builder.take_chain(log_id) {
            Some(chain) => chain,
            None => {
                proof {
                    assert(builder@ =~= old(builder)@);
                }
                return Err(Error::UnknownLogId(log_id));
            },
        };
        let found = chain.tail_index();
        let result = if found.0 != last_segment_index.0 {
            // tail segment is not what we expected.
            Err(Error::Admin(AdminError::SegmentMismatch { expected: last_segment_index, found }))
        } else {
            match chain.seal(tail_lsn, metadata) {
                Ok(lsn) => Ok(lsn),
                Err(err) => Err(Error::Admin(AdminError::ChainBuilder(err))),
            }
        };
        builder.put_chain(log_id, chain);
        proof {
            assert(builder@ =~= after_seal(
                old(builder)@,
                log_id,
                last_segment_index,
                tail_lsn,
                metadata@,
            ));
        }
        result
    }
}

} // verus!
