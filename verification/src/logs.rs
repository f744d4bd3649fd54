//! The mapping from log to chain: the unit that the metadata store versions.

use std::collections::HashMap;
use vstd::prelude::*;
use vstd::std_specs::hash::*;
use crate::chain::{Chain, ChainView};
use crate::error::BuilderError;
use crate::types::LogId;

verus! {

broadcast use vstd::std_specs::hash::group_hash_axioms;

/// Mathematical value of the log mapping.
pub type LogsView = Map<LogId, ChainView>;

/// Every chain of the mapping is well formed.
pub open spec fn logs_wf(logs: LogsView) -> bool {
    forall|id: LogId| #[trigger] logs.contains_key(id) ==> logs[id].wf()
}

pub closed spec fn chains_view(chains: Map<u32, Chain>) -> LogsView {
    Map::new(|id: LogId| chains.contains_key(id.0), |id: LogId| chains[id.0]@)
}

/// An immutable snapshot of all chains, as the store hands it out and
/// takes it back.
#[derive(Debug, PartialEq, Eq)]
pub struct Logs {
    chains: HashMap<u32, Chain>,
}

impl View for Logs {
    type V = LogsView;

    closed spec fn view(&self) -> LogsView {
        chains_view(self.chains@)
    }
}

impl Logs {
    /// What every constructor establishes and every method preserves.
    pub open spec fn wf(&self) -> bool {
        logs_wf(self@)
    }

    /// Opens the snapshot for mutation.
    pub fn into_builder(self) -> (builder: LogsBuilder)
        ensures
            builder@ == self@,
    {
        LogsBuilder { chains: self.chains }
    }

    /// The chain of `log_id`, if the snapshot holds that log.
    pub fn chain(&self, log_id: LogId) -> (chain: Option<&Chain>)
        ensures
            match chain {
                Some(c) => self@.contains_key(log_id) && c@ == self@[log_id],
                None => !self@.contains_key(log_id),
            },
    {
        self.chains.get(&log_id.0)
    }

    pub fn num_logs(&self) -> (n: usize)
        ensures
            n == self@.dom().len(),
    {
        proof {
            lemma_same_size(self.chains@);
        }
        self.chains.len()
    }
}

impl Clone for Logs {
    fn clone(&self) -> (copy: Self)
        ensures
            copy@ == self@,
    {
        Logs { chains: self.chains.clone() }
    }
}

/// The mapping while it is being changed: owned by one writer for the
/// length of one cycle.
#[derive(Debug, PartialEq, Eq)]
pub struct LogsBuilder {
    chains: HashMap<u32, Chain>,
}

impl View for LogsBuilder {
    type V = LogsView;

    closed spec fn view(&self) -> LogsView {
        chains_view(self.chains@)
    }
}

/// The mapping keyed by log and the mapping keyed by number have as many
/// entries as each other.
proof fn lemma_same_size(chains: Map<u32, Chain>)
    requires
        chains.dom().finite(),
    ensures
        chains_view(chains).dom().finite(),
        chains_view(chains).dom().len() == chains.dom().len(),
    decreases chains.dom().len(),
{
    let view = chains_view(chains);
    if chains.dom().len() == 0 {
        assert(chains.dom() =~= Set::empty());
        assert(view.dom() =~= Set::empty());
    } else {
        let k = chains.dom().choose();
        let rest = chains.remove(k);
        lemma_same_size(rest);
        assert(chains_view(rest).dom().insert(LogId(k)) =~= view.dom()) by {
            assert forall|id: LogId| view.dom().contains(id) implies chains_view(
                rest,
            ).dom().insert(LogId(k)).contains(id) by {
                if id.0 != k {
                    assert(rest.contains_key(id.0));
                } else {
                    assert(id == LogId(k));
                }
            }
        }
        assert(!chains_view(rest).dom().contains(LogId(k)));
    }
}

impl LogsBuilder {
    /// What every constructor establishes and every method preserves.
    pub open spec fn wf(&self) -> bool {
        logs_wf(self@)
    }

    /// A mapping without logs.
    pub fn new() -> (builder: LogsBuilder)
        ensures
            builder.wf(),
            builder@ == Map::<LogId, ChainView>::empty(),
    {
        let builder = LogsBuilder { chains: HashMap::new() };
        proof {
            assert(builder@ =~= Map::<LogId, ChainView>::empty());
        }
        builder
    }

    /// Adds a log with its chain. A log that is there already stays as it
    /// is, and the answer is `LogAlreadyExists`.
    pub fn add_log(&mut self, log_id: LogId, chain: Chain) -> (result: Result<(), BuilderError>)
        requires
            old(self).wf(),
            chain.wf(),
        ensures
            final(self).wf(),
            old(self)@.contains_key(log_id) ==> result == Err::<(), BuilderError>(
                BuilderError::LogAlreadyExists(log_id),
            ) && final(self)@ == old(self)@,
            !old(self)@.contains_key(log_id) ==> result == Ok::<(), BuilderError>(())
                && final(self)@ == old(self)@.insert(log_id, chain@),
    {
        if self.chains.contains_key(&log_id.0) {
            return Err(BuilderError::LogAlreadyExists(log_id));
        }
        self.put_chain(log_id, chain);
        Ok(())
    }

    /// The chain of `log_id`, if the mapping holds that log.
    pub fn chain(&self, log_id: LogId) -> (chain: Option<&Chain>)
        ensures
            match chain {
                Some(c) => self@.contains_key(log_id) && c@ == self@[log_id],
                None => !self@.contains_key(log_id),
            },
    {
        self.chains.get(&log_id.0)
    }

    /// Takes the chain of `log_id` out of the mapping, to be changed and
    /// put back.
    pub(crate) fn take_chain(&mut self, log_id: LogId) -> (chain: Option<Chain>)
        requires
            old(self).wf(),
        ensures
            final(self).wf(),
            final(self)@ == old(self)@.remove(log_id),
            match chain {
                Some(c) => old(self)@.contains_key(log_id) && c@ == old(self)@[log_id] && c.wf(),
                None => !old(self)@.contains_key(log_id),
            },
    {
        let chain = self.chains.remove(&log_id.0);
        proof {
            assert(self@ =~= old(self)@.remove(log_id)) by {
                assert forall|id: LogId| self@.contains_key(id) == old(self)@.remove(
                    log_id,
                ).contains_key(id) by {
                    if id.0 == log_id.0 {
                        assert(id == log_id);
                    }
                }
            }
            if chain is Some {
                assert(old(self)@.contains_key(log_id));
            }
        }
        chain
    }

    /// Sets the chain of `log_id`.
    pub(crate) fn put_chain(&mut self, log_id: LogId, chain: Chain)
        requires
            old(self).wf(),
            chain.wf(),
        ensures
            final(self).wf(),
            final(self)@ == old(self)@.insert(log_id, chain@),
    {
        self.chains.insert(log_id.0, chain);
        proof {
            assert(self@ =~= old(self)@.insert(log_id, chain@)) by {
                assert forall|id: LogId| self@.contains_key(id) == old(self)@.insert(
                    log_id,
                    chain@,
                ).contains_key(id) by {
                    if id.0 == log_id.0 {
                        assert(id == log_id);
                    }
                }
            }
        }
    }

    /// Closes the mapping: the snapshot to hand to the store.
    pub fn build(self) -> (logs: Logs)
        ensures
            logs@ == self@,
    {
        Logs { chains: self.chains }
    }
}

} // verus!
