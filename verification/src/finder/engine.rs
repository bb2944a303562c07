//! Who holds the log accessor: the engine while it is idle, a search while it runs.
use crate::cache::{Cache, CacheView};
use crate::finder::{SearchStatus, SearchTarget};
use vstd::prelude::*;

verus! {

/// The owner of the log accessor between searches, and the mailbox of the search
/// that runs.
///
/// `C` is the accessor. The engine never looks into it: it only hands it to a search
/// and takes it back.
pub struct SearchEngine<C> {
    /// The accessor, while no search runs.
    consumer: Option<C>,
    /// A target that waits for its search to be launched.
    target: Option<SearchTarget>,
    /// The newest status that has not been read.
    status: Option<SearchStatus>,
    /// The cache of the last search that succeeded, until it is taken.
    cache: Option<Cache>,
}

impl<C> SearchEngine<C> {
    /// The accessor that the engine holds.
    pub closed spec fn consumer(&self) -> Option<C> {
        self.consumer
    }

    /// The target that waits to be launched.
    pub closed spec fn target(&self) -> Option<SearchTarget> {
        self.target
    }

    /// The status that waits to be read.
    pub closed spec fn pending_status(&self) -> Option<SearchStatus> {
        self.status
    }

    /// The cache that waits to be taken.
    pub closed spec fn pending_cache(&self) -> Option<CacheView> {
        match self.cache {
            Some(cache) => Some(cache@),
            None => None,
        }
    }

    /// Whether no search runs: the engine holds the accessor.
    pub open spec fn is_idle(&self) -> bool {
        self.consumer() is Some
    }

    /// An idle engine that holds `consumer`.
    pub fn new(consumer: C) -> (engine: Self)
        ensures
            engine.consumer() == Some(consumer),
            engine.target() is None,
            engine.pending_status() is None,
            engine.pending_cache() is None,
    {
        SearchEngine { consumer: Some(consumer), target: None, status: None, cache: None }
    }

    /// Asks for a search for `target`. An idle engine takes the target, in place of
    /// one that waited, and answers `true`. While a search runs the request is
    /// refused: the engine answers `false` and stays as it is.
    pub fn init_search(&mut self, target: SearchTarget) -> (accepted: bool)
        ensures
            accepted == old(self).is_idle(),
            final(self).target() == (if accepted {
                Some(target)
            } else {
                old(self).target()
            }),
            final(self).consumer() == old(self).consumer(),
            final(self).pending_status() == old(self).pending_status(),
            final(self).pending_cache() == old(self).pending_cache(),
    {
        if self.consumer.is_some() {
            self.target = Some(target);
        }
        self.consumer.is_some()
    }

    /// Takes the status that waits to be read.
    pub fn status(&mut self) -> (status: Option<SearchStatus>)
        ensures
            status == old(self).pending_status(),
            final(self).pending_status() is None,
            final(self).consumer() == old(self).consumer(),
            final(self).target() == old(self).target(),
            final(self).pending_cache() == old(self).pending_cache(),
    {
        self.status.take()
    }

    /// Takes the cache that waits to be taken.
    pub fn cache(&mut self) -> (cache: Option<Cache>)
        ensures
            cache is Some <==> old(self).pending_cache() is Some,
            cache matches Some(c) ==> old(self).pending_cache() == Some(c@),
            final(self).pending_cache() is None,
            final(self).consumer() == old(self).consumer(),
            final(self).target() == old(self).target(),
            final(self).pending_status() == old(self).pending_status(),
    {
        self.cache.take()
    }

    /// Hands out the accessor and the waiting target for a search to be launched, if
    /// the engine holds both. The target waits no longer in either case.
    pub fn launch(&mut self) -> (job: Option<(C, SearchTarget)>)
        ensures
            job == (if old(self).target() is Some && old(self).consumer() is Some {
                Some((old(self).consumer()->0, old(self).target()->0))
            } else {
                None
            }),
            final(self).target() is None,
            final(self).consumer() == (if old(self).target() is Some {
                None
            } else {
                old(self).consumer()
            }),
            final(self).pending_status() == old(self).pending_status(),
            final(self).pending_cache() == old(self).pending_cache(),
    {
        match self.target.take() {
            Some(target) => match self.consumer.take() {
                Some(consumer) => Some((consumer, target)),
                None => None,
            },
            None => None,
        }
    }

    /// Takes back the accessor from a search that succeeded, with its cache.
    pub fn accept_results(&mut self, consumer: C, cache: Cache)
        ensures
            final(self).consumer() == Some(consumer),
            final(self).pending_cache() == Some(cache@),
            final(self).target() == old(self).target(),
            final(self).pending_status() == old(self).pending_status(),
    {
        self.consumer = Some(consumer);
        self.cache = Some(cache);
    }

    /// Takes back the accessor from a search that was halted. No cache comes with it.
    pub fn accept_halt(&mut self, consumer: C)
        ensures
            final(self).consumer() == Some(consumer),
            final(self).pending_cache() == old(self).pending_cache(),
            final(self).target() == old(self).target(),
            final(self).pending_status() == old(self).pending_status(),
    {
        self.consumer = Some(consumer);
    }

    /// Takes a status from the search that runs, in place of one not yet read.
    pub fn accept_status(&mut self, status: SearchStatus)
        ensures
            final(self).pending_status() == Some(status),
            final(self).consumer() == old(self).consumer(),
            final(self).target() == old(self).target(),
            final(self).pending_cache() == old(self).pending_cache(),
    {
        self.status = Some(status);
    }
}

} // verus!
