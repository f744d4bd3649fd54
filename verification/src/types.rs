//! Identifiers and opaque descriptors shared by every part of the crate.

use vstd::prelude::*;

verus! {

/// Identifier of a logical log; the key of the metadata mapping.
#[derive(Clone, Copy, Debug, PartialEq, Eq, PartialOrd, Ord, Hash, Structural)]
pub struct LogId(pub u32);

/// Ordinal of a segment within its chain.
#[derive(Clone, Copy, Debug, PartialEq, Eq, PartialOrd, Ord, Hash, Structural)]
pub struct SegmentIndex(pub u32);

/// Position within a log's record stream.
#[derive(Clone, Copy, Debug, PartialEq, Eq, PartialOrd, Ord, Hash, Structural)]
pub struct Lsn(pub u64);

/// Storage backend that implements a segment. Carried, never interpreted.
#[derive(Clone, Copy, Debug, PartialEq, Eq, Hash, Structural)]
pub enum ProviderKind {
    InMemory,
    Local,
    Replicated,
}

/// Backend-specific configuration of a segment. Carried, never interpreted.
#[derive(Debug, PartialEq, Eq)]
pub struct LogletParams(pub String);

impl View for LogletParams {
    type V = Seq<char>;

    open spec fn view(&self) -> Seq<char> {
        self.0@
    }
}

impl Clone for LogletParams {
    fn clone(&self) -> (copy: Self)
        ensures
            copy@ == self@,
    {
        LogletParams(self.0.clone())
    }
}

/// Payload recorded with a seal. Carried, never interpreted.
#[derive(Debug, PartialEq, Eq)]
pub struct SealMetadata(pub String);

impl View for SealMetadata {
    type V = Seq<char>;

    open spec fn view(&self) -> Seq<char> {
        self.0@
    }
}

impl Clone for SealMetadata {
    fn clone(&self) -> (copy: Self)
        ensures
            copy@ == self@,
    {
        SealMetadata(self.0.clone())
    }
}

} // verus!
