//! The pages of the search screen.
use vstd::prelude::*;

verus! {

/// A page with its name.
pub struct Tab<P> {
    pub name: String,
    pub page: P,
}

/// Which page of the search screen is shown.
#[derive(Clone, Copy, Debug, PartialEq, Eq, Structural)]
pub enum SearchTabState {
    Setup,
    Results,
}

impl Default for SearchTabState {
    fn default() -> (state: SearchTabState)
        ensures
            state == SearchTabState::Setup,
    {
        SearchTabState::Setup
    }
}

/// The page on which a search is set up.
#[derive(Clone, Copy, Debug, PartialEq, Eq, Structural)]
pub struct SetupSearchTab {}

/// The page that lists what a search found.
#[derive(Clone, Copy, Debug, PartialEq, Eq, Structural)]
pub struct ResultsTab {}

/// The search screen: a page to set a search up and a page for its results.
pub struct SearchTab {
    pub setup: Tab<SetupSearchTab>,
    pub results: Tab<ResultsTab>,
    pub stats: SearchTabState,
}

impl<P> Tab<P> {
    /// A page without a name.
    pub fn new(page: P) -> (tab: Self)
        ensures
            tab.page == page,
            tab.name@ == Seq::<char>::empty(),
    {
        Tab { name: String::new(), page }
    }
}

impl SearchTab {
    /// The search screen as it opens: on the set-up page.
    pub fn new() -> (tab: Self)
        ensures
            tab.stats == SearchTabState::Setup,
            tab.setup.name@ == Seq::<char>::empty(),
            tab.results.name@ == Seq::<char>::empty(),
    {
        SearchTab {
            setup: Tab::new(SetupSearchTab {  }),
            results: Tab::new(ResultsTab {  }),
            stats: SearchTabState::Setup,
        }
    }

    /// The screen with the other page shown.
    pub open spec fn spec_switched(state: SearchTabState) -> SearchTabState {
        match state {
            SearchTabState::Setup => SearchTabState::Results,
            SearchTabState::Results => SearchTabState::Setup,
        }
    }

    /// Shows the other page.
    pub fn switch(&mut self)
        ensures
            final(self).stats == Self::spec_switched(old(self).stats),
            final(self).setup == old(self).setup,
            final(self).results == old(self).results,
    {
        self.stats = match self.stats {
            SearchTabState::Setup => SearchTabState::Results,
            SearchTabState::Results => SearchTabState::Setup,
        };
    }
}

} // verus!
