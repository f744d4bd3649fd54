use log_chain::chain::Chain;
use log_chain::command::{LogChainCommand, OpOutput};
use log_chain::error::{AdminError, BuilderError, Error, ReadModifyWriteError, StoreError};
use log_chain::extender::{LogChainExtender, Phase, MAX_BATCH_SIZE_LOG_CHAIN_EXTENSIONS};
use log_chain::logs::{Logs, LogsBuilder};
use log_chain::request::Outcome;
use log_chain::types::{LogId, LogletParams, Lsn, ProviderKind, SealMetadata, SegmentIndex};

fn params(s: &str) -> LogletParams {
    LogletParams(s.to_string())
}

fn meta(s: &str) -> SealMetadata {
    SealMetadata(s.to_string())
}

/// Log 1 with three segments, so that its tail has index 2 and base 30.
fn snapshot() -> Logs {
    let mut chain = Chain::with_base_lsn(Lsn(10), ProviderKind::Local, params("s0"));
    chain.append_segment(Lsn(20), ProviderKind::Local, params("s1")).unwrap();
    chain.append_segment(Lsn(30), ProviderKind::Local, params("s2")).unwrap();
    let mut builder = LogsBuilder::new();
    builder.add_log(LogId(1), chain).unwrap();
    builder
        .add_log(LogId(2), Chain::with_base_lsn(Lsn(5), ProviderKind::InMemory, params("t0")))
        .unwrap();
    builder.build()
}

fn collecting() -> LogChainExtender {
    let mut extender = LogChainExtender::new();
    assert_eq!(extender.begin_cycle(), 128);
    extender
}

#[test]
fn batch_limit_is_128() {
    assert_eq!(MAX_BATCH_SIZE_LOG_CHAIN_EXTENSIONS, 128);
}

#[test]
fn new_extender_is_idle() {
    let extender = LogChainExtender::new();
    assert_eq!(extender.current_phase(), Phase::Idle);
    assert!(!extender.is_terminated());
    assert_eq!(extender.batch_len(), 0);
}

#[test]
fn empty_batch_terminates() {
    let mut extender = collecting();
    assert_eq!(extender.current_phase(), Phase::Collecting);
    assert_eq!(extender.batch_collected(Vec::new()), 0);
    assert_eq!(extender.current_phase(), Phase::Terminated);
    assert!(extender.is_terminated());
}

#[test]
fn same_expectation_twice_second_sees_the_moved_tail() {
    let (mut rx_extend, extend) = LogChainCommand::extend(
        LogId(1),
        SegmentIndex(2),
        Lsn(100),
        ProviderKind::Replicated,
        params("paramsA"),
    );
    let (mut rx_seal, seal) =
        LogChainCommand::seal_chain(LogId(1), SegmentIndex(2), Lsn(150), meta("metaX"));
    let mut extender = collecting();
    assert_eq!(extender.batch_collected(vec![extend, seal]), 2);
    assert_eq!(extender.current_phase(), Phase::Applying);
    let logs = extender.apply_batch(Some(snapshot())).unwrap();
    assert_eq!(extender.current_phase(), Phase::Committing);
    assert!(rx_extend.try_recv().is_err());
    assert!(rx_seal.try_recv().is_err());

    let chain = logs.chain(LogId(1)).unwrap();
    assert_eq!(chain.tail_index(), SegmentIndex(3));
    assert_eq!(chain.tail().base_lsn, Lsn(100));
    assert_eq!(chain.tail().provider, ProviderKind::Replicated);
    assert_eq!(chain.tail().params, params("paramsA"));
    assert!(!chain.is_sealed());

    let mismatch = Error::Admin(AdminError::SegmentMismatch {
        expected: SegmentIndex(2),
        found: SegmentIndex(3),
    });
    let delivered = extender.commit_finished(Ok(()));
    assert_eq!(delivered, vec![Outcome::Extended(Ok(())), Outcome::Sealed(Err(mismatch))]);
    assert_eq!(rx_extend.try_recv().unwrap(), Ok(()));
    assert_eq!(rx_seal.try_recv().unwrap(), Err(mismatch));
    assert_eq!(extender.current_phase(), Phase::Idle);
    assert_eq!(extender.batch_len(), 0);
}

#[test]
fn version_conflict_fails_all_three() {
    let (mut rx1, c1) =
        LogChainCommand::extend(LogId(1), SegmentIndex(2), Lsn(100), ProviderKind::Local, params("a"));
    let (mut rx2, c2) = LogChainCommand::seal_chain(LogId(2), SegmentIndex(0), Lsn(9), meta("m"));
    let (mut rx3, c3) =
        LogChainCommand::extend(LogId(7), SegmentIndex(0), Lsn(1), ProviderKind::Local, params("b"));
    let mut extender = collecting();
    assert_eq!(extender.batch_collected(vec![c1, c2, c3]), 3);
    assert!(extender.apply_batch(Some(snapshot())).is_ok());
    let conflict = Error::MetadataStore(StoreError::VersionConflict);
    let delivered = extender
        .commit_finished(Err(ReadModifyWriteError::ReadWrite(StoreError::VersionConflict)));
    assert_eq!(
        delivered,
        vec![
            Outcome::Extended(Err(conflict)),
            Outcome::Sealed(Err(conflict)),
            Outcome::Extended(Err(conflict)),
        ]
    );
    assert_eq!(rx1.try_recv().unwrap(), Err(conflict));
    assert_eq!(rx2.try_recv().unwrap(), Err(conflict));
    assert_eq!(rx3.try_recv().unwrap(), Err(conflict));
    assert_eq!(extender.current_phase(), Phase::Idle);
}

#[test]
fn committed_batch_reports_each_validation() {
    let (mut rx1, c1) =
        LogChainCommand::extend(LogId(1), SegmentIndex(2), Lsn(100), ProviderKind::Local, params("a"));
    let (mut rx2, c2) = LogChainCommand::seal_chain(LogId(2), SegmentIndex(0), Lsn(9), meta("m"));
    let (mut rx3, c3) =
        LogChainCommand::extend(LogId(7), SegmentIndex(0), Lsn(1), ProviderKind::Local, params("b"));
    let mut extender = collecting();
    extender.batch_collected(vec![c1, c2, c3]);
    let logs = extender.apply_batch(Some(snapshot())).unwrap();
    assert_eq!(logs.num_logs(), 2);
    assert_eq!(logs.chain(LogId(2)).unwrap().sealed_tail_lsn(), Some(Lsn(9)));
    let delivered = extender.commit_finished(Ok(()));
    assert_eq!(
        delivered,
        vec![
            Outcome::Extended(Ok(())),
            Outcome::Sealed(Ok(Lsn(9))),
            Outcome::Extended(Err(Error::UnknownLogId(LogId(7)))),
        ]
    );
    assert_eq!(rx1.try_recv().unwrap(), Ok(()));
    assert_eq!(rx2.try_recv().unwrap(), Ok(Lsn(9)));
    assert_eq!(rx3.try_recv().unwrap(), Err(Error::UnknownLogId(LogId(7))));
}

#[test]
fn extend_then_seal_with_next_index_both_succeed() {
    let (mut rx1, c1) =
        LogChainCommand::extend(LogId(1), SegmentIndex(2), Lsn(100), ProviderKind::Local, params("a"));
    let (mut rx2, c2) = LogChainCommand::seal_chain(LogId(1), SegmentIndex(3), Lsn(150), meta("m"));
    let mut extender = collecting();
    extender.batch_collected(vec![c1, c2]);
    let logs = extender.apply_batch(Some(snapshot())).unwrap();
    let chain = logs.chain(LogId(1)).unwrap();
    assert_eq!(chain.num_segments(), 4);
    assert_eq!(chain.sealed_tail_lsn(), Some(Lsn(150)));
    let delivered = extender.commit_finished(Ok(()));
    assert_eq!(delivered, vec![Outcome::Extended(Ok(())), Outcome::Sealed(Ok(Lsn(150)))]);
    assert_eq!(rx1.try_recv().unwrap(), Ok(()));
    assert_eq!(rx2.try_recv().unwrap(), Ok(Lsn(150)));
}

#[test]
fn seal_then_extend_in_one_batch_fails_the_extend() {
    let (mut rx1, c1) = LogChainCommand::seal_chain(LogId(1), SegmentIndex(2), Lsn(60), meta("m"));
    let (mut rx2, c2) =
        LogChainCommand::extend(LogId(1), SegmentIndex(2), Lsn(100), ProviderKind::Local, params("a"));
    let mut extender = collecting();
    extender.batch_collected(vec![c1, c2]);
    let logs = extender.apply_batch(Some(snapshot())).unwrap();
    assert_eq!(logs.chain(LogId(1)).unwrap().num_segments(), 3);
    let sealed = Error::Admin(AdminError::ChainBuilder(BuilderError::ChainPermanentlySealed));
    let delivered = extender.commit_finished(Ok(()));
    assert_eq!(delivered, vec![Outcome::Sealed(Ok(Lsn(60))), Outcome::Extended(Err(sealed))]);
    assert_eq!(rx1.try_recv().unwrap(), Ok(Lsn(60)));
    assert_eq!(rx2.try_recv().unwrap(), Err(sealed));
}

#[test]
fn missing_metadata_fails_the_whole_batch() {
    let (mut rx1, c1) =
        LogChainCommand::extend(LogId(1), SegmentIndex(2), Lsn(100), ProviderKind::Local, params("a"));
    let (mut rx2, c2) = LogChainCommand::seal_chain(LogId(1), SegmentIndex(3), Lsn(150), meta("m"));
    let mut extender = collecting();
    extender.batch_collected(vec![c1, c2]);
    let err = extender.apply_batch(None).unwrap_err();
    assert_eq!(err, Error::LogsMetadataNotProvisioned);
    assert_eq!(extender.current_phase(), Phase::Committing);
    let delivered = extender.commit_finished(Err(ReadModifyWriteError::FailedOperation(err)));
    assert_eq!(
        delivered,
        vec![
            Outcome::Extended(Err(Error::LogsMetadataNotProvisioned)),
            Outcome::Sealed(Err(Error::LogsMetadataNotProvisioned)),
        ]
    );
    assert_eq!(rx1.try_recv().unwrap(), Err(Error::LogsMetadataNotProvisioned));
    assert_eq!(rx2.try_recv().unwrap(), Err(Error::LogsMetadataNotProvisioned));
}

#[test]
fn each_request_is_answered_exactly_once() {
    let (mut rx, cmd) =
        LogChainCommand::extend(LogId(1), SegmentIndex(2), Lsn(100), ProviderKind::Local, params("a"));
    let mut extender = collecting();
    extender.batch_collected(vec![cmd]);
    extender.apply_batch(Some(snapshot())).unwrap();
    let delivered = extender.commit_finished(Ok(()));
    assert_eq!(delivered.len(), 1);
    assert_eq!(rx.try_recv().unwrap(), Ok(()));
    assert!(rx.try_recv().is_err());
    assert_eq!(extender.batch_len(), 0);
}

#[test]
fn requester_that_went_away_is_no_error() {
    let (rx, cmd) = LogChainCommand::seal_chain(LogId(1), SegmentIndex(2), Lsn(60), meta("m"));
    drop(rx);
    let (mut rx2, cmd2) = LogChainCommand::seal_chain(LogId(2), SegmentIndex(0), Lsn(6), meta("n"));
    let mut extender = collecting();
    extender.batch_collected(vec![cmd, cmd2]);
    extender.apply_batch(Some(snapshot())).unwrap();
    let delivered = extender.commit_finished(Ok(()));
    assert_eq!(delivered, vec![Outcome::Sealed(Ok(Lsn(60))), Outcome::Sealed(Ok(Lsn(6)))]);
    assert_eq!(rx2.try_recv().unwrap(), Ok(Lsn(6)));
}

#[test]
fn requests_to_other_logs_do_not_change_an_answer() {
    let (_rx_a, alone) =
        LogChainCommand::extend(LogId(1), SegmentIndex(2), Lsn(100), ProviderKind::Local, params("a"));
    let mut first = collecting();
    first.batch_collected(vec![alone]);
    first.apply_batch(Some(snapshot())).unwrap();
    let by_itself = first.commit_finished(Ok(()));

    let (_rx_b, other) = LogChainCommand::seal_chain(LogId(2), SegmentIndex(0), Lsn(6), meta("n"));
    let (_rx_c, same) =
        LogChainCommand::extend(LogId(1), SegmentIndex(2), Lsn(100), ProviderKind::Local, params("a"));
    let mut second = collecting();
    second.batch_collected(vec![other, same]);
    second.apply_batch(Some(snapshot())).unwrap();
    let among_others = second.commit_finished(Ok(()));
    assert_eq!(by_itself[0], among_others[1]);
    assert_eq!(by_itself[0], Outcome::Extended(Ok(())));
}

#[test]
fn cancel_while_waiting_stops_at_once() {
    let mut idle = LogChainExtender::new();
    assert!(idle.cancel());
    assert_eq!(idle.current_phase(), Phase::Terminated);

    let mut waiting = collecting();
    assert!(waiting.cancel());
    assert!(waiting.is_terminated());
    assert!(waiting.cancel());
    assert!(waiting.is_terminated());
}

#[test]
fn cancel_during_a_cycle_lets_the_cycle_finish() {
    let (mut rx, cmd) =
        LogChainCommand::extend(LogId(1), SegmentIndex(2), Lsn(100), ProviderKind::Local, params("a"));
    let mut extender = collecting();
    extender.batch_collected(vec![cmd]);
    assert!(!extender.cancel());
    assert_eq!(extender.current_phase(), Phase::Applying);
    assert_eq!(extender.batch_len(), 1);
    extender.apply_batch(Some(snapshot())).unwrap();
    assert!(!extender.cancel());
    assert_eq!(extender.current_phase(), Phase::Committing);
    let delivered = extender.commit_finished(Ok(()));
    assert_eq!(delivered, vec![Outcome::Extended(Ok(()))]);
    assert_eq!(rx.try_recv().unwrap(), Ok(()));
    assert!(extender.is_terminated());
}

#[test]
fn command_remembers_what_it_asks_for() {
    let (_rx, cmd) =
        LogChainCommand::extend(LogId(3), SegmentIndex(8), Lsn(100), ProviderKind::Local, params("a"));
    assert_eq!(cmd.log_id(), LogId(3));
    assert_eq!(cmd.last_segment_index(), SegmentIndex(8));
    assert!(!cmd.is_staged());
    let (_rx, cmd) = LogChainCommand::seal_chain(LogId(4), SegmentIndex(9), Lsn(100), meta("m"));
    assert_eq!(cmd.log_id(), LogId(4));
    assert_eq!(cmd.last_segment_index(), SegmentIndex(9));
    assert!(!cmd.is_staged());
}

#[test]
fn staged_answer_is_not_seen_before_completion() {
    let (mut rx, mut cmd) = LogChainCommand::seal_chain(LogId(2), SegmentIndex(0), Lsn(6), meta("n"));
    let mut builder = snapshot().into_builder();
    cmd.stage(&mut builder);
    assert!(cmd.is_staged());
    assert!(builder.chain(LogId(2)).unwrap().is_sealed());
    assert!(rx.try_recv().is_err());
    assert_eq!(cmd.complete(), Outcome::Sealed(Ok(Lsn(6))));
    assert_eq!(rx.try_recv().unwrap(), Ok(Lsn(6)));
}

#[test]
fn failing_a_staged_command_discards_what_was_staged() {
    let (mut rx, mut cmd) = LogChainCommand::seal_chain(LogId(2), SegmentIndex(0), Lsn(6), meta("n"));
    let mut builder = snapshot().into_builder();
    cmd.stage(&mut builder);
    let err = Error::MetadataStore(StoreError::Network);
    assert_eq!(cmd.fail(err), Outcome::Sealed(Err(err)));
    assert_eq!(rx.try_recv().unwrap(), Err(err));
}

#[test]
fn failing_an_unstaged_extension() {
    let (mut rx, cmd) =
        LogChainCommand::extend(LogId(3), SegmentIndex(8), Lsn(100), ProviderKind::Local, params("a"));
    let err = Error::MetadataStore(StoreError::Codec);
    assert_eq!(cmd.fail(err), Outcome::Extended(Err(err)));
    assert_eq!(rx.try_recv().unwrap(), Err(err));
}

#[test]
fn store_failure_before_validation_fails_the_batch() {
    let (mut rx1, c1) =
        LogChainCommand::extend(LogId(1), SegmentIndex(2), Lsn(100), ProviderKind::Local, params("a"));
    let (mut rx2, c2) = LogChainCommand::seal_chain(LogId(2), SegmentIndex(0), Lsn(9), meta("m"));
    let mut extender = collecting();
    extender.batch_collected(vec![c1, c2]);
    assert!(!extender.is_validated());
    let network = Error::MetadataStore(StoreError::Network);
    let delivered =
        extender.commit_finished(Err(ReadModifyWriteError::ReadWrite(StoreError::Network)));
    assert_eq!(delivered, vec![Outcome::Extended(Err(network)), Outcome::Sealed(Err(network))]);
    assert_eq!(rx1.try_recv().unwrap(), Err(network));
    assert_eq!(rx2.try_recv().unwrap(), Err(network));
    assert_eq!(extender.current_phase(), Phase::Idle);
}

#[test]
fn validated_only_after_applying_to_a_snapshot() {
    let (_rx1, c1) =
        LogChainCommand::extend(LogId(1), SegmentIndex(2), Lsn(100), ProviderKind::Local, params("a"));
    let mut extender = collecting();
    assert!(!extender.is_validated());
    extender.batch_collected(vec![c1]);
    assert!(!extender.is_validated());
    extender.apply_batch(Some(snapshot())).unwrap();
    assert!(extender.is_validated());
    extender.commit_finished(Ok(()));
    assert!(!extender.is_validated());

    let (_rx2, c2) =
        LogChainCommand::extend(LogId(1), SegmentIndex(2), Lsn(100), ProviderKind::Local, params("a"));
    extender.begin_cycle();
    extender.batch_collected(vec![c2]);
    assert!(extender.apply_batch(None).is_err());
    assert!(!extender.is_validated());
}

#[test]
fn cycles_follow_one_another() {
    let mut extender = LogChainExtender::new();
    let mut logs = snapshot();
    let mut tail: u32 = 2;
    let mut lsn: u64 = 100;
    while tail < 6 {
        let (mut rx, cmd) = LogChainCommand::extend(
            LogId(1),
            SegmentIndex(tail),
            Lsn(lsn),
            ProviderKind::Local,
            params("n"),
        );
        extender.begin_cycle();
        assert_eq!(extender.batch_collected(vec![cmd]), 1);
        logs = extender.apply_batch(Some(logs)).unwrap();
        assert_eq!(extender.commit_finished(Ok(())), vec![Outcome::Extended(Ok(()))]);
        assert_eq!(rx.try_recv().unwrap(), Ok(()));
        tail += 1;
        lsn += 10;
    }
    let chain = logs.chain(LogId(1)).unwrap();
    assert_eq!(chain.tail_index(), SegmentIndex(6));
    assert_eq!(chain.num_segments(), 7);
    assert_eq!(chain.tail().base_lsn, Lsn(130));
}

#[test]
fn full_batch_is_taken_whole() {
    let mut batch = Vec::new();
    let mut receivers = Vec::new();
    let mut i: u64 = 0;
    while i < 128 {
        let (rx, cmd) = LogChainCommand::extend(
            LogId(1),
            SegmentIndex(2 + i as u32),
            Lsn(100 + i),
            ProviderKind::Local,
            params("n"),
        );
        batch.push(cmd);
        receivers.push(rx);
        i += 1;
    }
    let mut extender = collecting();
    assert_eq!(extender.batch_collected(batch), 128);
    let logs = extender.apply_batch(Some(snapshot())).unwrap();
    assert_eq!(logs.chain(LogId(1)).unwrap().tail_index(), SegmentIndex(130));
    let delivered = extender.commit_finished(Ok(()));
    assert_eq!(delivered.len(), 128);
    for outcome in delivered {
        assert_eq!(outcome, Outcome::Extended(Ok(())));
    }
    for mut rx in receivers {
        assert_eq!(rx.try_recv().unwrap(), Ok(()));
    }
}

#[test]
fn output_delivers_what_was_staged() {
    let (mut rx, mut output) = OpOutput::<u64>::channel();
    output.stage_output(Ok(41));
    assert!(rx.try_recv().is_err());
    assert_eq!(output.complete(), Ok(41));
    assert_eq!(rx.try_recv().unwrap(), Ok(41));
}

#[test]
fn output_delivers_a_staged_error() {
    let (mut rx, mut output) = OpOutput::<u64>::channel();
    output.stage_output(Err(Error::UnknownLogId(LogId(3))));
    assert_eq!(output.complete(), Err(Error::UnknownLogId(LogId(3))));
    assert_eq!(rx.try_recv().unwrap(), Err(Error::UnknownLogId(LogId(3))));
}

#[test]
fn output_fails_with_the_given_error() {
    let (mut rx, mut output) = OpOutput::<u64>::channel();
    output.stage_output(Ok(41));
    let err = Error::MetadataStore(StoreError::Storage);
    assert_eq!(output.fail(err), Err(err));
    assert_eq!(rx.try_recv().unwrap(), Err(err));
}
