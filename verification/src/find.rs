//! Finding a run of characters in the page: the bar, and the search it shows.
//!
//! The search belongs to the page. The bar is the page's search made visible: a tab
//! coming to the front brings its own query with it, and a tab that is not searching
//! brings no bar.

use vstd::prelude::*;

use crate::browser::{
    changing_a_tab_is_sound, each_tab_is_sound, saying, Browser, ChromeView, Command, FindStatus,
    State,
};
use crate::tab::{Page, PageView, Search, SearchView, TabView};

verus! {

/// What the bar says of a search.
pub open spec fn status_of(search: Option<SearchView>) -> FindStatus {
    match search {
        Some(search) => FindStatus {
            total: search.total,
            current: if search.total > 0 {
                (search.at + 1) as usize
            } else {
                0
            },
        },
        None => FindStatus { total: 0, current: 0 },
    }
}

/// What a page is searched for: what the bar holds, unless it holds nothing.
pub open spec fn wanted(finding: Option<Seq<char>>) -> Option<Seq<char>> {
    match finding {
        Some(query) => if query.len() > 0 {
            Some(query)
        } else {
            None
        },
        None => None,
    }
}

/// A page's search once it looks for `wanted`, which the page holds `occurrences`
/// times: the search it has where that is for the same thing, else a new one at its
/// first match, or none.
pub open spec fn searched(
    search: Option<SearchView>,
    wanted: Option<Seq<char>>,
    occurrences: usize,
) -> Option<SearchView> {
    match wanted {
        Some(query) => if search is Some && search->0.query == query {
            search
        } else {
            Some(SearchView { query, total: occurrences, at: 0 })
        },
        None => None,
    }
}

/// A search taken to its next match or the one before it, round the ends.
pub open spec fn search_stepped(search: Option<SearchView>, forward: bool) -> Option<SearchView> {
    match search {
        Some(search) => if search.total == 0 {
            Some(search)
        } else {
            Some(
                SearchView {
                    at: if forward {
                        if search.at + 1 < search.total {
                            (search.at + 1) as usize
                        } else {
                            0
                        }
                    } else {
                        if search.at > 0 {
                            (search.at - 1) as usize
                        } else {
                            (search.total - 1) as usize
                        }
                    },
                    ..search
                },
            )
        },
        None => None,
    }
}

/// A tab whose page, if it has one, has this search.
pub open spec fn with_search(tab: TabView, search: Option<SearchView>) -> TabView {
    TabView {
        page: match tab.page {
            Some(page) => Some(PageView { search, ..page }),
            None => None,
        },
        ..tab
    }
}

/// The search of the page in a tab, if there is one.
pub open spec fn search_of(tab: TabView) -> Option<SearchView> {
    match tab.page {
        Some(page) => page.search,
        None => None,
    }
}

/// The search of the page in the active tab once it looks for what the bar holds.
pub open spec fn search_after(s: State, occurrences: usize) -> Option<SearchView> {
    if s.tab().page is Some {
        searched(search_of(s.tab()), wanted(s.chrome.finding), occurrences)
    } else {
        None
    }
}

/// A browser whose bar says this of the search.
pub open spec fn status_shown(s: State, status: FindStatus) -> State {
    State { chrome: ChromeView { find_status: status, ..s.chrome }, ..s }
}

/// A browser whose page's search agrees with the bar, and whose bar's count agrees
/// with the page.
pub open spec fn find_updated(s: State, occurrences: usize) -> State {
    let search = search_after(s, occurrences);
    status_shown(
        s.with_tab(with_search(s.tab(), search)).telling_if(
            search_of(s.tab()) is Some && search is None,
            Command::ClearFind(s.tab().id),
        ),
        status_of(search),
    )
}

/// What the page in a tab is being searched for, if there is one and it is.
pub open spec fn query_of(tab: TabView) -> Option<Seq<char>> {
    match search_of(tab) {
        Some(search) => Some(search.query),
        None => None,
    }
}

/// A browser whose bar shows whatever the active tab is already searching for.
pub open spec fn find_synced(s: State) -> State {
    find_updated(bar_showing(s, query_of(s.tab())), 0)
}

/// A browser whose bar is open with this in it, or closed.
pub open spec fn bar_showing(s: State, finding: Option<Seq<char>>) -> State {
    State { chrome: ChromeView { finding, ..s.chrome }, ..s }
}

/// A browser taken to the next place the query occurs, or the one before it.
pub open spec fn match_stepped(s: State, forward: bool, occurrences: usize) -> State {
    let old = search_of(s.tab());
    let search = search_stepped(old, forward);
    let moved = s.with_tab(with_search(s.tab(), search));
    find_updated(
        if old is Some && old->0.total > 0 {
            moved.telling(Command::ShowMatch(s.tab().id, search->0.at))
        } else {
            moved
        },
        occurrences,
    )
}

impl Page {
    /// What the bar says of this page's search.
    pub fn find_status(&self) -> (status: FindStatus)
        requires
            self.deep_view().wf(),
        ensures
            status == status_of(self.deep_view().search),
    {
        match &self.search {
            Some(search) => FindStatus {
                total: search.total,
                current: if search.total > 0 {
                    search.at + 1
                } else {
                    0
                },
            },
            None => FindStatus { total: 0, current: 0 },
        }
    }

    /// Look for `wanted`, which this page holds `occurrences` times, and say whether a
    /// search was given up.
    fn look_for(&mut self, wanted: Option<String>, occurrences: usize) -> (cleared: bool)
        requires
            old(self).deep_view().wf(),
        ensures
            final(self).deep_view().wf(),
            final(self).deep_view() == (PageView {
                search: searched(old(self).deep_view().search, wanted.deep_view(), occurrences),
                ..old(self).deep_view()
            }),
            cleared == (old(self).deep_view().search is Some
                && final(self).deep_view().search is None),
    {
        match wanted {
            Some(query) => {
                let known = match &self.search {
                    Some(search) => search.query == query,
                    None => false,
                };
                if !known {
                    self.search = Some(Search { query, total: occurrences, at: 0 });
                }
                false
            },
            None => {
                let had = self.search.is_some();
                self.search = None;
                had
            },
        }
    }

    /// Take the search one match on, or one back, and say which match it is at if
    /// there is one to be at.
    fn step(&mut self, forward: bool) -> (at: Option<usize>)
        requires
            old(self).deep_view().wf(),
        ensures
            final(self).deep_view().wf(),
            final(self).deep_view() == (PageView {
                search: search_stepped(old(self).deep_view().search, forward),
                ..old(self).deep_view()
            }),
            at == match old(self).deep_view().search {
                Some(search) => if search.total > 0 {
                    Some(search_stepped(Some(search), forward)->0.at)
                } else {
                    None
                },
                None => None,
            },
    {
        match self.search.take() {
            None => None,
            Some(search) => {
                if search.total == 0 {
                    self.search = Some(search);
                    None
                } else {
                    let at: usize = if forward {
                        if search.at < search.total - 1 {
                            search.at + 1
                        } else {
                            0
                        }
                    } else {
                        if search.at > 0 {
                            search.at - 1
                        } else {
                            search.total - 1
                        }
                    };
                    self.search = Some(Search { query: search.query, total: search.total, at });
                    Some(at)
                }
            },
        }
    }
}

impl Browser {
    /// Have the page in the active tab, if there is one, look for what the bar holds,
    /// and say whether a search was given up and what the bar says now.
    fn search_page(&mut self, occurrences: usize) -> (found: (bool, FindStatus))
        requires
            old(self).wf(),
        ensures
            final(self).wf(),
            final(self)@ == old(self)@.with_tab(
                with_search(old(self)@.tab(), search_after(old(self)@, occurrences)),
            ),
            found.0 == (search_of(old(self)@.tab()) is Some && search_after(
                old(self)@,
                occurrences,
            ) is None),
            found.1 == status_of(search_after(old(self)@, occurrences)),
    {
        proof {
            reveal(Browser::state);
            each_tab_is_sound(self@);
        }
        let ghost before = self@;
        let wanted = match &self.chrome.finding {
            Some(query) => if query.as_str().unicode_len() > 0 {
                Some(query.clone())
            } else {
                None
            },
            None => None,
        };
        assert(wanted.deep_view() == self::wanted(before.chrome.finding));
        let index = self.active;
        match &mut self.tabs[index].page {
            None => {
                assert(self@.tabs =~= before.tabs);
                assert(with_search(before.tab(), None) == before.tab());
                assert(before.with_tab(before.tab()).tabs =~= before.tabs);
                (false, FindStatus { total: 0, current: 0 })
            },
            Some(page) => {
                let cleared = page.look_for(wanted, occurrences);
                let status = page.find_status();
                proof {
                    assert(self@.tabs =~= before.tabs.update(index as int, self@.tabs[index as int]));
                    changing_a_tab_is_sound(before, index as int, self@.tabs[index as int]);
                }
                (cleared, status)
            },
        }
    }

    /// Make the active page's search agree with the find bar, and the bar's count agree
    /// with the page.
    ///
    /// `occurrences` is how many times the page holds what the bar holds. The query is
    /// searched again only when it has changed: asking for the same one twice would take
    /// the reader back to the first match every time anything at all happened.
    pub fn update_find(&mut self, occurrences: usize)
        requires
            old(self).wf(),
        ensures
            final(self).wf(),
            final(self)@ == find_updated(old(self)@, occurrences),
    {
        let id = self.active_tab().id;
        let (cleared, status) = self.search_page(occurrences);
        self.tell_if(cleared, Command::ClearFind(id));
        self.show_status(status);
    }

    /// Say this of the search in the bar.
    fn show_status(&mut self, status: FindStatus)
        requires
            old(self).wf(),
        ensures
            final(self).wf(),
            final(self)@ == status_shown(old(self)@, status),
    {
        proof {
            reveal(Browser::state);
        }
        self.chrome.find_status = status;
    }

    /// Open the bar with this in it, or close it.
    pub fn show_bar(&mut self, finding: Option<String>)
        requires
            old(self).wf(),
        ensures
            final(self).wf(),
            final(self)@ == bar_showing(old(self)@, finding.deep_view()),
    {
        proof {
            reveal(Browser::state);
        }
        self.chrome.finding = finding;
    }

    /// Take the search of the page in the active tab one match on, or one back.
    fn step_page(&mut self, forward: bool) -> (reached: Option<usize>)
        requires
            old(self).wf(),
        ensures
            final(self).wf(),
            final(self)@ == old(self)@.with_tab(
                with_search(
                    old(self)@.tab(),
                    search_stepped(search_of(old(self)@.tab()), forward),
                ),
            ),
            reached == match search_of(old(self)@.tab()) {
                Some(search) => if search.total > 0 {
                    Some(search_stepped(Some(search), forward)->0.at)
                } else {
                    None
                },
                None => None,
            },
    {
        proof {
            reveal(Browser::state);
            each_tab_is_sound(self@);
        }
        let ghost before = self@;
        let index = self.active;
        match &mut self.tabs[index].page {
            None => {
                assert(self@.tabs =~= before.tabs);
                assert(with_search(before.tab(), None) == before.tab());
                assert(before.with_tab(before.tab()).tabs =~= before.tabs);
                None
            },
            Some(page) => {
                let reached = page.step(forward);
                proof {
                    assert(self@.tabs =~= before.tabs.update(index as int, self@.tabs[index as int]));
                    changing_a_tab_is_sound(before, index as int, self@.tabs[index as int]);
                }
                reached
            },
        }
    }

    /// Go to the next place the query occurs, or the one before it.
    pub fn step_match(&mut self, forward: bool, occurrences: usize)
        requires
            old(self).wf(),
        ensures
            final(self).wf(),
            final(self)@ == match_stepped(old(self)@, forward, occurrences),
    {
        let id = self.active_tab().id;
        match self.step_page(forward) {
            Some(at) => self.tell(Command::ShowMatch(id, at)),
            None => {},
        }
        self.update_find(occurrences);
    }

    /// Show the find bar for whatever the active tab is already searching for.
    pub fn sync_find(&mut self)
        requires
            old(self).wf(),
        ensures
            final(self).wf(),
            final(self)@ == find_synced(old(self)@),
    {
        let query = match &self.active_tab().page {
            Some(page) => match &page.search {
                Some(search) => Some(search.query.clone()),
                None => None,
            },
            None => None,
        };
        self.show_bar(query);
        self.update_find(0);
    }
}

/// Asking for what is already looked for changes nothing: the reader is not taken back
/// to the first match.
pub proof fn the_same_query_is_not_searched_again(s: State, occurrences: usize)
    requires
        s.wf(),
        s.tab().page is Some,
        query_of(s.tab()) is Some,
        wanted(s.chrome.finding) == query_of(s.tab()),
    ensures
        find_updated(s, occurrences).tabs == s.tabs,
        find_updated(s, occurrences).told == s.told,
        find_updated(s, occurrences).chrome.find_status == status_of(s.tab().page->0.search),
{
    reveal(saying);
    assert(with_search(s.tab(), search_after(s, occurrences)) == s.tab());
    assert(find_updated(s, occurrences).tabs =~= s.tabs);
}

/// Stepping on and stepping back again is where the reader was, round either end.
pub proof fn a_step_on_and_back_is_none(search: SearchView, forward: bool)
    requires
        search.total > 0,
        search.at < search.total,
    ensures
        search_stepped(search_stepped(Some(search), forward), !forward) == Some(search),
        search_stepped(Some(search), forward)->0.at < search.total,
{
}

/// A search belongs to the page it was made in: bringing a tab to the front shows that
/// tab's search and leaves every page's search as it is, but for one with nothing in it.
pub proof fn a_search_belongs_to_its_tab(s: State)
    requires
        s.wf(),
        query_of(s.tab()) is Some ==> query_of(s.tab())->0.len() > 0,
    ensures
        find_synced(s).tabs == s.tabs,
        find_synced(s).chrome.finding == query_of(s.tab()),
        find_synced(s).chrome.find_status == status_of(search_of(s.tab())),
{
    let shown = bar_showing(s, query_of(s.tab()));
    assert(with_search(s.tab(), search_after(shown, 0)) == s.tab());
    assert(find_synced(s).tabs =~= s.tabs);
}

/// Looking for something else than before, or for the first time, starts over: the page is
/// searched for what the bar holds, which it holds as often as was counted now, from its
/// first match, and the bar says so.
pub proof fn a_new_query_starts_at_its_first_match(s: State, occurrences: usize)
    requires
        s.wf(),
        s.tab().page is Some,
        s.chrome.finding is Some,
        s.chrome.finding->0.len() > 0,
        s.tab().page->0.search is None || s.tab().page->0.search->0.query != s.chrome.finding->0,
    ensures
        ({
            let after = find_updated(s, occurrences);
            let page = after.tab().page;
            &&& page is Some
            &&& page->0.scroll == s.tab().page->0.scroll
            &&& page->0.search is Some
            &&& page->0.search->0.query == s.chrome.finding->0
            &&& page->0.search->0.total == occurrences
            &&& page->0.search->0.at == 0
            &&& after.chrome.finding == s.chrome.finding
            &&& after.chrome.find_status.total == occurrences
            &&& after.chrome.find_status.current == if occurrences > 0 {
                1int
            } else {
                0
            }
            &&& after.told == s.told
            &&& forall|i: int|
                0 <= i < s.tabs.len() && i != s.active ==> after.tabs[i] == #[trigger] s.tabs[i]
        }),
{
    reveal(saying);
}

/// A bar that is closed, or holds nothing, looks for nothing: the page has no search and the
/// bar counts none, and the page is told so exactly where it had one.
pub proof fn an_empty_bar_looks_for_nothing(s: State, occurrences: usize)
    requires
        s.wf(),
        s.chrome.finding is None || s.chrome.finding->0.len() == 0,
    ensures
        ({
            let after = find_updated(s, occurrences);
            &&& after.tab().page is Some == s.tab().page is Some
            &&& after.tab().page is Some ==> after.tab().page->0.search is None
            &&& after.tab().page is Some ==> after.tab().page->0.scroll
                == s.tab().page->0.scroll
            &&& after.chrome.find_status.total == 0
            &&& after.chrome.find_status.current == 0
            &&& s.tab().page is Some && s.tab().page->0.search is Some ==> after.told
                == s.told.push(Command::ClearFind(s.tab().id))
            &&& s.tab().page is None || s.tab().page->0.search is None ==> after.told == s.told
        }),
{
    reveal(saying);
}

/// A step lands on the match after the one the reader is at, or on the one before it, round
/// either end; the page is told to show that one, and the bar says which of how many it is.
pub proof fn a_step_shows_the_match_it_lands_on(s: State, forward: bool, occurrences: usize)
    requires
        s.wf(),
        s.tab().page is Some,
        s.tab().page->0.search is Some,
        s.tab().page->0.search->0.query.len() > 0,
        s.chrome.finding == Some(s.tab().page->0.search->0.query),
    ensures
        ({
            let search = s.tab().page->0.search->0;
            let after = match_stepped(s, forward, occurrences);
            let now = after.tab().page->0.search;
            &&& after.tab().page is Some
            &&& now is Some
            &&& now->0.query == search.query
            &&& now->0.total == search.total
            &&& search.total > 0 ==> {
                &&& forward && search.at + 1 < search.total ==> now->0.at == search.at + 1
                &&& forward && search.at + 1 == search.total ==> now->0.at == 0
                &&& !forward && search.at > 0 ==> now->0.at == search.at - 1
                &&& !forward && search.at == 0 ==> now->0.at == search.total - 1
                &&& after.told == s.told.push(Command::ShowMatch(s.tab().id, now->0.at))
                &&& after.chrome.find_status.total == search.total
                &&& after.chrome.find_status.current == now->0.at + 1
            }
            &&& search.total == 0 ==> {
                &&& now->0.at == search.at
                &&& after.told == s.told
                &&& after.chrome.find_status.total == 0
                &&& after.chrome.find_status.current == 0
            }
        }),
{
    reveal(saying);
    each_tab_is_sound(s);
}

} // verus!
