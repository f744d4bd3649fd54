//! One log's chain of segments, and the two mutations it accepts.

use vstd::prelude::*;
use crate::error::BuilderError;
use crate::types::{LogletParams, Lsn, ProviderKind, SealMetadata, SegmentIndex};

verus! {

/// A contiguous range of a log, served by one storage backend.
#[derive(Debug, PartialEq, Eq)]
pub struct Segment {
    pub index: SegmentIndex,
    pub base_lsn: Lsn,
    pub provider: ProviderKind,
    pub params: LogletParams,
}

/// Mathematical value of a [`Segment`].
pub struct SegmentView {
    pub index: SegmentIndex,
    pub base_lsn: Lsn,
    pub provider: ProviderKind,
    pub params: Seq<char>,
}

impl View for Segment {
    type V = SegmentView;

    open spec fn view(&self) -> SegmentView {
        SegmentView {
            index: self.index,
            base_lsn: self.base_lsn,
            provider: self.provider,
            params: self.params@,
        }
    }
}

impl Clone for Segment {
    fn clone(&self) -> (copy: Self)
        ensures
            copy@ == self@,
    {
        Segment {
            index: self.index,
            base_lsn: self.base_lsn,
            provider: self.provider,
            params: self.params.clone(),
        }
    }
}

/// The record that closes a chain for good.
#[derive(Debug, PartialEq, Eq)]
pub struct Seal {
    pub tail_lsn: Lsn,
    pub metadata: SealMetadata,
}

/// Mathematical value of a [`Seal`].
pub struct SealView {
    pub tail_lsn: Lsn,
    pub metadata: Seq<char>,
}

impl View for Seal {
    type V = SealView;

    open spec fn view(&self) -> SealView {
        SealView { tail_lsn: self.tail_lsn, metadata: self.metadata@ }
    }
}

impl Clone for Seal {
    fn clone(&self) -> (copy: Self)
        ensures
            copy@ == self@,
    {
        Seal { tail_lsn: self.tail_lsn, metadata: self.metadata.clone() }
    }
}

/// Mathematical value of a [`Chain`]: its segments from head to tail, and
/// the seal if the chain has been closed.
///
/// Every segment but the last ends where its successor begins. The last one
/// is open until the chain is sealed; the seal then fixes its end.
pub struct ChainView {
    pub segments: Seq<SegmentView>,
    pub seal: Option<SealView>,
}

impl ChainView {
    /// A chain of one open segment with index 0.
    pub open spec fn single(base_lsn: Lsn, provider: ProviderKind, params: Seq<char>) -> ChainView {
        ChainView {
            segments: seq![
                SegmentView { index: SegmentIndex(0), base_lsn, provider, params },
            ],
            seal: None,
        }
    }

    /// Segments are in strictly increasing order of base Lsn and of index,
    /// there is at least one, and a seal does not lie before the tail's base.
    pub open spec fn wf(self) -> bool {
        &&& self.segments.len() > 0
        &&& forall|i: int, j: int|
            0 <= i < j < self.segments.len() ==> {
                &&& (#[trigger] self.segments[i]).base_lsn.0 < (#[trigger] self.segments[j]).base_lsn.0
                &&& self.segments[i].index.0 < self.segments[j].index.0
            }
        &&& match self.seal {
            Some(seal) => self.segments.last().base_lsn.0 <= seal.tail_lsn.0,
            None => true,
        }
    }

    pub open spec fn tail(self) -> SegmentView {
        self.segments.last()
    }

    pub open spec fn tail_index(self) -> SegmentIndex {
        self.tail().index
    }

    pub open spec fn is_sealed(self) -> bool {
        self.seal is Some
    }

    /// What appending a segment at `base_lsn` answers: the new segment's
    /// index, or the reason the chain takes no such segment.
    pub open spec fn append_result(self, base_lsn: Lsn) -> Result<SegmentIndex, BuilderError> {
        if self.is_sealed() {
            Err(BuilderError::ChainPermanentlySealed)
        } else if base_lsn.0 <= self.tail().base_lsn.0 {
            Err(BuilderError::SegmentConflict(base_lsn))
        } else if self.tail().index.0 == u32::MAX {
            Err(BuilderError::SegmentIndexExhausted)
        } else {
            Ok(SegmentIndex((self.tail().index.0 + 1) as u32))
        }
    }

    /// The chain after an attempt to append: one segment longer if the
    /// attempt succeeds, untouched if it does not.
    pub open spec fn after_append(
        self,
        base_lsn: Lsn,
        provider: ProviderKind,
        params: Seq<char>,
    ) -> ChainView {
        match self.append_result(base_lsn) {
            Ok(index) => ChainView {
                segments: self.segments.push(SegmentView { index, base_lsn, provider, params }),
                seal: None,
            },
            Err(_) => self,
        }
    }

    /// What sealing at `tail_lsn` answers: the final Lsn of the chain, or
    /// the reason the chain cannot be sealed there.
    pub open spec fn seal_result(self, tail_lsn: Lsn) -> Result<Lsn, BuilderError> {
        if self.is_sealed() {
            Err(BuilderError::ChainPermanentlySealed)
        } else if tail_lsn.0 < self.tail().base_lsn.0 {
            Err(BuilderError::SegmentConflict(tail_lsn))
        } else {
            Ok(tail_lsn)
        }
    }

    /// The chain after an attempt to seal: closed at `tail_lsn` if the
    /// attempt succeeds, untouched if it does not.
    pub open spec fn after_seal(self, tail_lsn: Lsn, metadata: Seq<char>) -> ChainView {
        match self.seal_result(tail_lsn) {
            Ok(lsn) => ChainView {
                segments: self.segments,
                seal: Some(SealView { tail_lsn: lsn, metadata }),
            },
            Err(_) => self,
        }
    }

    /// Appending keeps a chain well formed, whether it succeeds or not.
    pub proof fn lemma_append_keeps_wf(
        self,
        base_lsn: Lsn,
        provider: ProviderKind,
        params: Seq<char>,
    )
        requires
            self.wf(),
        ensures
            self.after_append(base_lsn, provider, params).wf(),
    {
        let after = self.after_append(base_lsn, provider, params);
        if self.append_result(base_lsn) is Ok {
            let n = self.segments.len() as int;
            assert forall|i: int, j: int| 0 <= i < j < after.segments.len() implies {
                &&& (#[trigger] after.segments[i]).base_lsn.0 < (#[trigger] after.segments[j]).base_lsn.0
                &&& after.segments[i].index.0 < after.segments[j].index.0
            } by {
                if j < n {
                    assert(after.segments[i] == self.segments[i]);
                    assert(after.segments[j] == self.segments[j]);
                } else {
                    assert(after.segments[i] == self.segments[i]);
                    if i < n - 1 {
                        assert(self.segments[i].base_lsn.0 < self.segments[n - 1].base_lsn.0);
                    }
                }
            }
        }
    }

    /// Sealing keeps a chain well formed, whether it succeeds or not.
    pub proof fn lemma_seal_keeps_wf(self, tail_lsn: Lsn, metadata: Seq<char>)
        requires
            self.wf(),
        ensures
            self.after_seal(tail_lsn, metadata).wf(),
    {
    }
}

/// The ordered segments of one log.
///
/// A well-formed chain is never empty, its segments grow strictly in base
/// Lsn and in index, and once sealed it stays as it is.
#[derive(Debug, PartialEq, Eq)]
pub struct Chain {
    segments: Vec<Segment>,
    seal: Option<Seal>,
}

impl View for Chain {
    type V = ChainView;

    closed spec fn view(&self) -> ChainView {
        parts_view(self.segments@, self.seal)
    }
}

/// The value of a chain that is made of the given segments and seal.
pub open spec fn parts_view(segments: Seq<Segment>, seal: Option<Seal>) -> ChainView {
    ChainView {
        segments: segments.map_values(|s: Segment| s@),
        seal: match seal {
            Some(seal) => Some(seal@),
            None => None,
        },
    }
}

impl Chain {
    /// What every constructor establishes and every method preserves.
    pub open spec fn wf(&self) -> bool {
        self@.wf()
    }

    /// A chain of one open segment with index 0 that starts at the oldest
    /// Lsn a log can hold.
    pub fn new(provider: ProviderKind, params: LogletParams) -> (chain: Chain)
        ensures
            chain.wf(),
            chain@ == ChainView::single(Lsn(1), provider, params@),
    {
        Chain::with_base_lsn(Lsn(1), provider, params)
    }

    /// A chain of one open segment with index 0 that starts at `base_lsn`.
    pub fn with_base_lsn(base_lsn: Lsn, provider: ProviderKind, params: LogletParams) -> (chain:
        Chain)
        ensures
            chain.wf(),
            chain@ == ChainView::single(base_lsn, provider, params@),
    {
        let mut segments: Vec<Segment> = Vec::new();
        segments.push(Segment { index: SegmentIndex(0), base_lsn, provider, params });
        let chain = Chain { segments, seal: None };
        proof {
            assert(chain@.segments =~= ChainView::single(base_lsn, provider, params@).segments);
        }
        chain
    }

    /// The chain that the given segments and seal make up, if they make up
    /// one: there must be a segment, the segments must grow strictly in base
    /// Lsn and in index, and a seal must not lie before the last base.
    pub fn from_parts(segments: Vec<Segment>, seal: Option<Seal>) -> (chain: Option<Chain>)
        ensures
            match chain {
                Some(c) => c.wf() && c@ == parts_view(segments@, seal),
                None => !parts_view(segments@, seal).wf(),
            },
    {
        let ghost view = parts_view(segments@, seal);
        if segments.len() == 0 {
            return None;
        }
        let mut i: usize = 1;
        while i < segments.len()
            invariant
                1 <= i <= segments@.len(),
                view == parts_view(segments@, seal),
                forall|a: int, b: int|
                    0 <= a < b < i ==> {
                        &&& (#[trigger] view.segments[a]).base_lsn.0 < (
                        #[trigger] view.segments[b]).base_lsn.0
                        &&& view.segments[a].index.0 < view.segments[b].index.0
                    },
            decreases segments@.len() - i,
        {
            let ordered = segments[i - 1].base_lsn.0 < segments[i].base_lsn.0 && segments[i
                - 1].index.0 < segments[i].index.0;
            proof {
                assert(view.segments[i - 1] == segments@[i - 1]@);
                assert(view.segments[i as int] == segments@[i as int]@);
            }
            if !ordered {
                return None;
            }
            proof {
                assert forall|a: int, b: int| 0 <= a < b < i + 1 implies {
                    &&& (#[trigger] view.segments[a]).base_lsn.0 < (
                    #[trigger] view.segments[b]).base_lsn.0
                    &&& view.segments[a].index.0 < view.segments[b].index.0
                } by {
                    if b == i && a < i - 1 {
                        assert(view.segments[a].base_lsn.0 < view.segments[i - 1].base_lsn.0);
                    }
                }
            }
            i = i + 1;
        }
        let sealed_in_range = match &seal {
            Some(s) => segments[segments.len() - 1].base_lsn.0 <= s.tail_lsn.0,
            None => true,
        };
        proof {
            assert(view.segments.last() == segments@[segments@.len() - 1]@);
        }
        if !sealed_in_range {
            return None;
        }
        Some(Chain { segments, seal })
    }

    /// The last segment of the chain.
    pub fn tail(&self) -> (segment: &Segment)
        requires
            self.wf(),
        ensures
            segment@ == self@.tail(),
    {
        &self.segments[self.segments.len() - 1]
    }

    /// The index of the last segment: the token by which callers detect
    /// that the chain has moved on.
    pub fn tail_index(&self) -> (index: SegmentIndex)
        requires
            self.wf(),
        ensures
            index == self@.tail_index(),
    {
        self.tail().index
    }

    pub fn num_segments(&self) -> (n: usize)
        ensures
            n == self@.segments.len(),
    {
        self.segments.len()
    }

    /// The segment at position `at`, counted from the head.
    pub fn segment(&self, at: usize) -> (segment: Option<&Segment>)
        ensures
            match segment {
                Some(s) => at < self@.segments.len() && s@ == self@.segments[at as int],
                None => at >= self@.segments.len(),
            },
    {
        if at < self.segments.len() {
            Some(&self.segments[at])
        } else {
            None
        }
    }

    pub fn is_sealed(&self) -> (sealed: bool)
        ensures
            sealed == self@.is_sealed(),
    {
        self.seal.is_some()
    }

    /// The Lsn at which the chain was sealed, if it was.
    pub fn sealed_tail_lsn(&self) -> (lsn: Option<Lsn>)
        ensures
            lsn == match self@.seal {
                Some(seal) => Some(seal.tail_lsn),
                None => None,
            },
    {
        match &self.seal {
            Some(seal) => Some(seal.tail_lsn),
            None => None,
        }
    }

    /// The seal of the chain, if it was sealed.
    pub fn seal_record(&self) -> (seal: Option<&Seal>)
        ensures
            match seal {
                Some(s) => self@.seal == Some(s@),
                None => self@.seal is None,
            },
    {
        self.seal.as_ref()
    }

    /// Appends a segment that starts at `base_lsn`.
    ///
    /// A sealed chain refuses with `ChainPermanentlySealed`; a `base_lsn`
    /// that does not lie beyond the tail's base is a `SegmentConflict`; a
    /// tail whose index is the largest there is gives
    /// `SegmentIndexExhausted`. In each of these cases the chain is left as
    /// it was. Otherwise the new segment becomes the tail, with the index
    /// that follows the old tail's, and that index is returned.
    pub fn append_segment(
        &mut self,
        base_lsn: Lsn,
        provider: ProviderKind,
        params: LogletParams,
    ) -> (result: Result<SegmentIndex, BuilderError>)
        requires
            old(self).wf(),
        ensures
            final(self).wf(),
            result == old(self)@.append_result(base_lsn),
            final(self)@ == old(self)@.after_append(base_lsn, provider, params@),
    {
        proof {
            self@.lemma_append_keeps_wf(base_lsn, provider, params@);
        }
        if self.seal.is_some() {
            return Err(BuilderError::ChainPermanentlySealed);
        }
        let last: usize = self.segments.len() - 1;
        let tail_base: u64 = self.segments[last].base_lsn.0;
        let tail_index: u32 = self.segments[last].index.0;
        if base_lsn.0 <= tail_base {
            return Err(BuilderError::SegmentConflict(base_lsn));
        }
        if tail_index == u32::MAX {
            return Err(BuilderError::SegmentIndexExhausted);
        }
        let index = SegmentIndex(tail_index + 1);
        let ghost before = self@;
        self.segments.push(Segment { index, base_lsn, provider, params });
        proof {
            assert(self@.segments =~= before.after_append(base_lsn, provider, params@).segments);
        }
        Ok(index)
    }

    /// Seals the chain at `tail_lsn` and returns the chain's final Lsn.
    ///
    /// A chain that is sealed already refuses with `ChainPermanentlySealed`;
    /// a `tail_lsn` before the tail's base is a `SegmentConflict`. In both
    /// cases the chain is left as it was.
    pub fn seal(&mut self, tail_lsn: Lsn, metadata: &SealMetadata) -> (result: Result<
        Lsn,
        BuilderError,
    >)
        requires
            old(self).wf(),
        ensures
            final(self).wf(),
            result == old(self)@.seal_result(tail_lsn),
            final(self)@ == old(self)@.after_seal(tail_lsn, metadata@),
    {
        if self.seal.is_some() {
            return Err(BuilderError::ChainPermanentlySealed);
        }
        let last: usize = self.segments.len() - 1;
        if tail_lsn.0 < self.segments[last].base_lsn.0 {
            return Err(BuilderError::SegmentConflict(tail_lsn));
        }
        self.seal = Some(Seal { tail_lsn, metadata: metadata.clone() });
        Ok(tail_lsn)
    }
}

impl Clone for Chain {
    fn clone(&self) -> (copy: Self)
        ensures
            copy@ == self@,
    {
        let mut segments: Vec<Segment> = Vec::new();
        let mut i: usize = 0;
        while i < self.segments.len()
            invariant
                i <= self.segments@.len(),
                segments@.len() == i,
                forall|k: int| 0 <= k < i ==> (#[trigger] segments@[k])@ == self.segments@[k]@,
            decreases self.segments@.len() - i,
        {
            segments.push(self.segments[i].clone());
            i = i + 1;
        }
        let seal = match &self.seal {
            Some(seal) => Some(seal.clone()),
            None => None,
        };
        proof {
            assert(segments@.map_values(|s: Segment| s@) =~= self.segments@.map_values(
                |s: Segment| s@,
            ));
        }
        Chain { segments, seal }
    }
}

} // verus!
