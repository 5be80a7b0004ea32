//! What follows from the address of the active tab: the field that shows it, whether
//! it is kept, the zoom its site was left at, and the search of its page.

use vstd::prelude::*;

use crate::browser::{
    saying, scheme_in_force, stores_sound, Appearance, Bookmarked, Browser, ChromeView, Command,
    Place, PlaceView, Scheme, State,
};
use crate::find::find_synced;
use crate::strip::showing_an_address_changes_no_tab;
use crate::tab::{copy_text, TabView};
use crate::text::{blank, is_blank};
use crate::zoom::{
    clamped, comes_back_at, left_at, step_from, stepped, ZoomStep, LARGEST, OWN_SIZE, SMALLEST,
};

verus! {

/// Whether a page at `url` is among those kept.
pub open spec fn is_kept(kept: Seq<PlaceView>, url: Seq<char>) -> bool {
    exists|i: int| 0 <= i < kept.len() && (#[trigger] kept[i]).url == url
}

/// What the star says of an address.
pub open spec fn bookmark_of(kept: Seq<PlaceView>, url: Seq<char>) -> Bookmarked {
    if blank(url) {
        Bookmarked::Impossible
    } else if is_kept(kept, url) {
        Bookmarked::Yes
    } else {
        Bookmarked::No
    }
}

/// The site at `host` under `scheme`.
pub open spec fn site_at(scheme: Seq<char>, host: Seq<char>) -> Seq<char> {
    scheme + "://"@ + host
}

/// The site a zoom is remembered against: none for one of the browser's own pages.
pub open spec fn origin_of(tab: TabView) -> Option<Seq<char>> {
    if tab.system is Some {
        None
    } else {
        tab.site
    }
}

/// A browser whose page is drawn at the zoom its site was left at.
pub open spec fn zoom_restored(s: State) -> State {
    let wanted = comes_back_at(s.zooms, origin_of(s.tab()));
    if wanted == s.zoom {
        s
    } else {
        zoom_shown(s, wanted).telling_if(
            s.tab().page is Some,
            Command::InvalidateLayout(s.tab().id),
        )
    }
}

/// A browser whose page is drawn at `zoom`, which the chrome says too.
pub open spec fn zoom_shown(s: State, zoom: u32) -> State {
    State { zoom, chrome: ChromeView { zoom, ..s.chrome }, ..s }
}

/// A browser whose chrome shows this address, and this of whether it is kept.
pub open spec fn address_shown(s: State, address: Seq<char>, bookmark: Bookmarked) -> State {
    State { chrome: ChromeView { address, bookmark, ..s.chrome }, ..s }
}

/// A browser whose chrome shows the active tab's address and what follows from it.
pub open spec fn address_synced(s: State) -> State {
    find_synced(
        zoom_restored(
            address_shown(s, s.tab().url, bookmark_of(s.bookmarks, s.tab().url)),
        ),
    )
}

/// What changing a preference that is saved brings with it.
pub open spec fn preferences_saved(s: State, changed: bool) -> State {
    if changed {
        State { theme: scheme_in_force(s.settings.appearance, s.scheme), ..s }.telling(
            Command::SavePreferences,
        )
    } else {
        s
    }
}

/// A browser that remembers these zooms.
pub open spec fn remembering(s: State, zooms: Map<Seq<char>, u32>) -> State {
    State { zooms, ..s }
}

/// A browser that remembers the active tab's site, if it is on one, was left at `zoom`.
pub open spec fn zoom_remembered(s: State, zoom: u32) -> State {
    match origin_of(s.tab()) {
        Some(site) => {
            let zooms = left_at(s.zooms, site, zoom);
            preferences_saved(remembering(s, zooms), zooms != s.zooms)
        },
        None => s,
    }
}

/// A browser whose page is drawn at `zoom`, the reader's place held.
pub open spec fn drawn_at(s: State, zoom: u32) -> State {
    zoom_shown(s.telling_if(s.tab().page is Some, Command::HoldPlace(s.tab().id)), zoom)
}

/// A browser whose page was asked to be drawn at `zoom`.
pub open spec fn zoomed(s: State, zoom: u32) -> State {
    let wanted = clamped(zoom);
    let tab = s.tab();
    if wanted == s.zoom {
        s
    } else {
        let remembered = zoom_remembered(drawn_at(s, wanted), wanted);
        remembered.telling_if(tab.page is Some, Command::InvalidateLayout(tab.id))
    }
}

/// The pages kept once the one at `url` has been kept or dropped.
pub open spec fn kept_toggled(kept: Seq<PlaceView>, url: Seq<char>, title: Seq<char>) -> Seq<
    PlaceView,
> {
    if is_kept(kept, url) {
        kept_without(kept, url)
    } else {
        kept.push(PlaceView { url, title })
    }
}

/// The pages kept but for those at `url`.
pub open spec fn kept_without(kept: Seq<PlaceView>, url: Seq<char>) -> Seq<PlaceView> {
    kept.filter(|place: PlaceView| place.url != url)
}

/// A browser that has kept or dropped the page the reader is on.
pub open spec fn bookmark_toggled(s: State) -> State {
    let tab = s.tab();
    if blank(tab.url) {
        s
    } else {
        let title = if blank(tab.title) {
            tab.url
        } else {
            tab.title
        };
        State {
            bookmarks: kept_toggled(s.bookmarks, tab.url, title),
            chrome: ChromeView {
                bookmark: if is_kept(s.bookmarks, tab.url) {
                    Bookmarked::No
                } else {
                    Bookmarked::Yes
                },
                ..s.chrome
            },
            accessibility_dirty: true,
            ..s
        }
    }
}

/// Whether a page at `url` is among `kept`.
pub fn keeps(kept: &Vec<Place>, url: &String) -> (answer: bool)
    ensures
        answer == is_kept(kept.deep_view(), url@),
{
    let ghost places = kept.deep_view();
    let mut i: usize = 0;
    while i < kept.len()
        invariant
            i <= kept.len(),
            places == kept.deep_view(),
            forall|j: int| 0 <= j < i ==> (#[trigger] places[j]).url != url@,
        decreases kept.len() - i,
    {
        if kept[i].url == *url {
            assert(places[i as int].url == url@);
            return true;
        }
        assert(places[i as int].url != url@);
        i = i + 1;
    }
    false
}

/// `kept` but for what is at `url`.
pub fn drop_place(kept: Vec<Place>, url: &String) -> (rest: Vec<Place>)
    ensures
        rest.deep_view() == kept_without(kept.deep_view(), url@),
{
    let ghost places = kept.deep_view();
    let ghost other = |place: PlaceView| place.url != url@;
    let mut rest: Vec<Place> = Vec::new();
    let count: usize = kept.len();
    let mut left: Vec<Place> = kept;
    proof {
        assert(rest.deep_view() =~= Seq::<PlaceView>::empty());
        assert(places.take(0) =~= Seq::<PlaceView>::empty());
        reveal(Seq::filter);
        assert(left.deep_view() =~= places.skip(0));
    }
    let mut seen: usize = 0;
    while left.len() > 0
        invariant
            other == (|place: PlaceView| place.url != url@),
            seen + left.len() == places.len(),
            places.len() == count,
            left.deep_view() == places.skip(seen as int),
            rest.deep_view() == places.take(seen as int).filter(other),
        decreases left.len(),
    {
        let ghost waiting = left.deep_view();
        let place = left.remove(0);
        proof {
            assert(waiting[0] == place.deep_view());
            assert(places[seen as int] == waiting[0]);
            assert(left.deep_view() =~= waiting.drop_first());
            assert(waiting.drop_first() =~= places.skip(seen + 1));
            let longer = places.take(seen + 1);
            assert(longer.drop_last() =~= places.take(seen as int));
            reveal(Seq::filter);
        }
        let ghost kept_so_far = rest.deep_view();
        if place.url != *url {
            rest.push(place);
            assert(rest.deep_view() =~= kept_so_far.push(place.deep_view()));
        }
        seen = seen + 1;
    }
    assert(places.take(places.len() as int) =~= places);
    rest
}

/// The site at `host` under `scheme`.
///
/// Scheme and host, so that one host under two schemes is two sites, which it is to
/// everything else a browser keeps, and every page of one site is one site.
pub fn site_of(scheme: &str, host: &str) -> (site: String)
    ensures
        site@ == site_at(scheme@, host@),
{
    let mut site = scheme.to_owned();
    site.append("://");
    site.append(host);
    site
}

impl Browser {
    /// The site the active tab is on, as a zoom is remembered against it.
    ///
    /// None for a tab showing nothing, one of the browser's own pages, or an address
    /// that is on no site.
    pub fn active_origin(&self) -> (site: Option<String>)
        requires
            self.wf(),
        ensures
            site.deep_view() == origin_of(self@.tab()),
    {
        let tab = self.active_tab();
        if tab.system.is_some() {
            None
        } else {
            copy_text(&tab.site)
        }
    }

    /// How much larger than its own size the page in the active tab is drawn, in
    /// millionths.
    pub fn zoom(&self) -> (zoom: u32)
        ensures
            zoom == self@.zoom,
    {
        proof {
            reveal(Browser::state);
        }
        self.zoom
    }

    /// Put the zoom back to whatever this site was left at.
    pub fn restore_zoom(&mut self)
        requires
            old(self).wf(),
        ensures
            final(self).wf(),
            final(self)@ == zoom_restored(old(self)@),
    {
        let wanted: u32 = self.site_zoom();
        if wanted == self.zoom() {
            return;
        }
        let id = self.active_tab().id;
        let shown = self.active_tab().page.is_some();
        self.show_zoom(wanted);
        self.tell_if(shown, Command::InvalidateLayout(id));
    }

    /// The zoom the active tab's site was left at.
    fn site_zoom(&self) -> (zoom: u32)
        requires
            self.wf(),
        ensures
            zoom == comes_back_at(self@.zooms, origin_of(self@.tab())),
    {
        match self.active_origin() {
            Some(site) => match self.remembered(&site) {
                Some(zoom) => zoom,
                None => OWN_SIZE,
            },
            None => OWN_SIZE,
        }
    }

    /// The zoom `site` was left at, if it is remembered.
    fn remembered(&self, site: &String) -> (zoom: Option<u32>)
        requires
            self.wf(),
        ensures
            match zoom {
                Some(zoom) => self@.zooms.dom().contains(site@) && self@.zooms[site@] == zoom,
                None => !self@.zooms.dom().contains(site@),
            },
    {
        proof {
            reveal(Browser::state);
            reveal(stores_sound);
        }
        self.zooms.get(site)
    }

    /// Draw the page at `zoom`, and say so in the chrome.
    fn show_zoom(&mut self, zoom: u32)
        requires
            old(self).wf(),
        ensures
            final(self).wf(),
            final(self)@ == zoom_shown(old(self)@, zoom),
    {
        proof {
            reveal(Browser::state);
        }
        self.zoom = zoom;
        self.chrome.zoom = zoom;
    }

    /// Follow a preference that changed: save it, and draw from the palette it asks
    /// for.
    pub fn save_preferences_if_changed(&mut self, changed: bool)
        requires
            old(self).wf(),
        ensures
            final(self).wf(),
            final(self)@ == preferences_saved(old(self)@, changed),
    {
        if !changed {
            return;
        }
        self.apply_theme();
        self.tell(Command::SavePreferences);
    }

    /// Remember that the active tab's site, if it is on one, was left at `zoom`.
    fn remember_zoom(&mut self, zoom: u32)
        requires
            old(self).wf(),
        ensures
            final(self).wf(),
            final(self)@ == zoom_remembered(old(self)@, zoom),
    {
        match self.active_origin() {
            Some(site) => {
                let changed = self.leave_site_at(site, zoom);
                self.save_preferences_if_changed(changed);
            },
            None => {},
        }
    }

    /// Remember that `site` was left at `zoom`, and say whether that is news.
    fn leave_site_at(&mut self, site: String, zoom: u32) -> (changed: bool)
        requires
            old(self).wf(),
        ensures
            final(self).wf(),
            final(self)@ == remembering(old(self)@, left_at(old(self)@.zooms, site@, zoom)),
            changed == (left_at(old(self)@.zooms, site@, zoom) != old(self)@.zooms),
    {
        proof {
            reveal(Browser::state);
            reveal(stores_sound);
        }
        self.zooms.leave_at(site, zoom)
    }

    /// Draw the page this much larger, between a quarter and five times its own size.
    ///
    /// A factor outside the range is brought back rather than refused. It is remembered
    /// against the site rather than the tab or the window: a reader who needs a factor
    /// on one site needs it every time they go back, and needs the next site left
    /// alone.
    pub fn set_zoom(&mut self, zoom: u32)
        requires
            old(self).wf(),
        ensures
            final(self).wf(),
            final(self)@ == zoomed(old(self)@, zoom),
    {
        let wanted: u32 = if zoom < SMALLEST {
            SMALLEST
        } else if zoom > LARGEST {
            LARGEST
        } else {
            zoom
        };
        if wanted == self.zoom() {
            return;
        }
        let id = self.active_tab().id;
        let shown = self.active_tab().page.is_some();
        self.draw_at(wanted);
        self.remember_zoom(wanted);
        self.tell_if(shown, Command::InvalidateLayout(id));
    }

    /// Draw the page at `wanted`, holding the reader's place.
    fn draw_at(&mut self, wanted: u32)
        requires
            old(self).wf(),
        ensures
            final(self).wf(),
            final(self)@ == drawn_at(old(self)@, wanted),
    {
        let id = self.active_tab().id;
        let shown = self.active_tab().page.is_some();
        self.tell_if(shown, Command::HoldPlace(id));
        self.show_zoom(wanted);
    }

    /// Take the zoom one step along the ladder, or back to where it started.
    pub fn step_zoom(&mut self, step: ZoomStep)
        requires
            old(self).wf(),
        ensures
            final(self).wf(),
            final(self)@ == zoomed(old(self)@, stepped(step, old(self)@.zoom)),
    {
        let wanted: u32 = step_from(step, self.zoom());
        self.set_zoom(wanted);
    }

    /// Put the active tab's address back in the address field, with everything that is
    /// a property of the address.
    pub fn sync_address(&mut self)
        requires
            old(self).wf(),
        ensures
            final(self).wf(),
            final(self)@ == address_synced(old(self)@),
    {
        let url = self.active_tab().url.clone();
        let bookmark = self.bookmark_state(&url);
        self.show_address(url, bookmark);
        self.restore_zoom();
        self.sync_find();
    }

    /// What the star says of an address.
    fn bookmark_state(&self, url: &String) -> (bookmark: Bookmarked)
        ensures
            bookmark == bookmark_of(self@.bookmarks, url@),
    {
        proof {
            reveal(Browser::state);
        }
        if is_blank(url.as_str()) {
            Bookmarked::Impossible
        } else if keeps(&self.bookmarks, url) {
            Bookmarked::Yes
        } else {
            Bookmarked::No
        }
    }

    /// Put this in the address field, and say this of whether it is kept.
    pub fn show_address(&mut self, address: String, bookmark: Bookmarked)
        requires
            old(self).wf(),
        ensures
            final(self).wf(),
            final(self)@ == address_shown(old(self)@, address@, bookmark),
    {
        proof {
            reveal(Browser::state);
        }
        self.chrome.address = address;
        self.chrome.bookmark = bookmark;
    }

    /// Whether the page the reader is on is one they kept.
    pub fn is_bookmarked(&self) -> (answer: bool)
        requires
            self.wf(),
        ensures
            answer == is_kept(self@.bookmarks, self@.tab().url),
    {
        proof {
            reveal(Browser::state);
        }
        keeps(&self.bookmarks, &self.tabs[self.active].url)
    }

    /// Keep the page the reader is on, or stop keeping it.
    ///
    /// One command for both, because a reader pressing it twice means to undo it. A
    /// blank tab is not a page, and a bookmark that opens nowhere is worse than none.
    pub fn toggle_bookmark(&mut self)
        requires
            old(self).wf(),
        ensures
            final(self).wf(),
            final(self)@ == bookmark_toggled(old(self)@),
    {
        proof {
            reveal(Browser::state);
        }
        let ghost before = self@;
        let url = self.tabs[self.active].url.clone();
        if is_blank(url.as_str()) {
            return;
        }
        let title = if is_blank(self.tabs[self.active].title.as_str()) {
            url.clone()
        } else {
            self.tabs[self.active].title.clone()
        };
        if keeps(&self.bookmarks, &url) {
            let mut kept: Vec<Place> = Vec::new();
            std::mem::swap(&mut kept, &mut self.bookmarks);
            self.bookmarks = drop_place(kept, &url);
            self.chrome.bookmark = Bookmarked::No;
        } else {
            self.bookmarks.push(Place { url, title });
            self.chrome.bookmark = Bookmarked::Yes;
            assert(self@.bookmarks =~= before.bookmarks.push(
                PlaceView { url: url@, title: title@ },
            ));
        }
        self.accessibility_dirty = true;
        assert(self@ =~= bookmark_toggled(before));
    }
}

/// Keeping the page twice is what it was before: the second command undoes the first.
pub proof fn a_bookmark_toggled_twice_is_as_it_was(s: State)
    requires
        s.wf(),
        !is_kept(s.bookmarks, s.tab().url),
    ensures
        bookmark_toggled(bookmark_toggled(s)).bookmarks == s.bookmarks,
{
    let url = s.tab().url;
    if !blank(url) {
        let title = if blank(s.tab().title) {
            url
        } else {
            s.tab().title
        };
        let once = bookmark_toggled(s).bookmarks;
        assert(once[s.bookmarks.len() as int].url == url);
        assert(is_kept(once, url));
        let other = |place: PlaceView| place.url != url;
        reveal(Seq::filter);
        assert(once.drop_last() =~= s.bookmarks);
        nothing_to_drop(s.bookmarks, url);
    }
}

/// Once kept, a page is shown as kept wherever its address is shown, and once dropped
/// it is shown as one that could be.
pub proof fn the_star_agrees_with_what_is_kept(s: State)
    requires
        s.wf(),
        !blank(s.tab().url),
    ensures
        is_kept(bookmark_toggled(s).bookmarks, s.tab().url) == !is_kept(
            s.bookmarks,
            s.tab().url,
        ),
        bookmark_toggled(s).chrome.bookmark == bookmark_of(
            bookmark_toggled(s).bookmarks,
            s.tab().url,
        ),
{
    let url = s.tab().url;
    if is_kept(s.bookmarks, url) {
        let other = |place: PlaceView| place.url != url;
        let rest = kept_without(s.bookmarks, url);
        if is_kept(rest, url) {
            let i = choose|i: int| 0 <= i < rest.len() && (#[trigger] rest[i]).url == url;
            s.bookmarks.lemma_filter_pred(other, i);
            assert(other(rest[i]));
        }
    } else {
        let after = bookmark_toggled(s).bookmarks;
        assert(after[s.bookmarks.len() as int].url == url);
    }
}

proof fn nothing_to_drop(kept: Seq<PlaceView>, url: Seq<char>)
    requires
        !is_kept(kept, url),
    ensures
        kept_without(kept, url) == kept,
    decreases kept.len(),
{
    reveal(Seq::filter);
    if kept.len() > 0 {
        let shorter = kept.drop_last();
        assert(!is_kept(shorter, url)) by {
            if is_kept(shorter, url) {
                let i = choose|i: int| 0 <= i < shorter.len() && (#[trigger] shorter[i]).url == url;
                assert(kept[i].url == url);
            }
        }
        nothing_to_drop(shorter, url);
        assert(kept[kept.len() - 1].url != url);
        assert(shorter.push(kept.last()) =~= kept);
    } else {
        assert(kept_without(kept, url) =~= kept);
    }
}

/// The zoom in force is always one a page is drawn at, whatever is asked for.
pub proof fn a_zoom_stays_in_range(s: State, zoom: u32)
    requires
        SMALLEST <= s.zoom <= LARGEST,
    ensures
        SMALLEST <= zoomed(s, zoom).zoom <= LARGEST,
        zoomed(s, zoom).zoom == clamped(zoom),
        zoomed(s, zoom).chrome.zoom == if clamped(zoom) == s.zoom {
            s.chrome.zoom
        } else {
            clamped(zoom)
        },
{
}

/// A zoom set on a site is the zoom every page of that site comes back at, in any tab.
pub proof fn a_site_comes_back_at_the_zoom_it_was_left_at(s: State, zoom: u32, later: TabView)
    requires
        origin_of(s.tab()) is Some,
        origin_of(later) == origin_of(s.tab()),
        s.zoom == comes_back_at(s.zooms, origin_of(s.tab())),
    ensures
        comes_back_at(zoomed(s, zoom).zooms, origin_of(later)) == clamped(zoom),
{
}

/// Two sites are one only where both the scheme and the host are: a scheme holds no colon.
pub proof fn a_site_is_one_scheme_and_one_host(
    scheme: Seq<char>,
    host: Seq<char>,
    other_scheme: Seq<char>,
    other_host: Seq<char>,
)
    requires
        site_at(scheme, host) == site_at(other_scheme, other_host),
        !scheme.contains(':'),
        !other_scheme.contains(':'),
    ensures
        scheme == other_scheme,
        host == other_host,
{
    reveal_strlit("://");
    let one = site_at(scheme, host);
    let other = site_at(other_scheme, other_host);
    assert(one[scheme.len() as int] == ':');
    assert(other[other_scheme.len() as int] == ':');
    if scheme.len() < other_scheme.len() {
        assert(other[scheme.len() as int] == other_scheme[scheme.len() as int]);
    }
    if other_scheme.len() < scheme.len() {
        assert(one[other_scheme.len() as int] == scheme[other_scheme.len() as int]);
    }
    assert(one.take(scheme.len() as int) =~= scheme);
    assert(other.take(scheme.len() as int) =~= other_scheme);
    assert(one.skip(scheme.len() as int + 3) =~= host);
    assert(other.skip(scheme.len() as int + 3) =~= other_host);
}

/// What is shown of the active tab's address follows from it: the field holds it, the star says
/// whether it is kept, or that there is nothing to keep, and the page is drawn at the zoom its
/// site was left at, or at its own size where there is no such site. The bar holds what the
/// page is being searched for, and is closed where it is not.
pub proof fn the_star_and_the_zoom_follow_the_address(s: State)
    requires
        s.wf(),
    ensures
        ({
            let after = address_synced(s);
            let tab = s.tab();
            let kept = exists|i: int|
                0 <= i < s.bookmarks.len() && (#[trigger] s.bookmarks[i]).url == tab.url;
            let site = tab.system is None && tab.site is Some && s.zooms.dom().contains(
                tab.site->0,
            );
            &&& after.chrome.address == tab.url
            &&& blank(tab.url) ==> after.chrome.bookmark == Bookmarked::Impossible
            &&& !blank(tab.url) && kept ==> after.chrome.bookmark == Bookmarked::Yes
            &&& !blank(tab.url) && !kept ==> after.chrome.bookmark == Bookmarked::No
            &&& site ==> after.zoom == s.zooms[tab.site->0]
            &&& !site ==> after.zoom == 1_000_000
            &&& after.zoom != s.zoom ==> after.chrome.zoom == after.zoom
            &&& after.zoom != s.zoom && tab.page is Some ==> after.told.contains(
                Command::InvalidateLayout(tab.id),
            )
            &&& tab.page is Some && tab.page->0.search is Some ==> after.chrome.finding == Some(
                tab.page->0.search->0.query,
            )
            &&& tab.page is None || tab.page->0.search is None ==> after.chrome.finding is None
                && after.chrome.find_status.total == 0
            &&& tab.page is Some && tab.page->0.search is Some
                && tab.page->0.search->0.query.len() > 0 ==> after.chrome.find_status.total
                == tab.page->0.search->0.total
        }),
{
    reveal(saying);
    showing_an_address_changes_no_tab(s);
    let after = address_synced(s);
    if after.zoom != s.zoom && s.tab().page is Some {
        assert(after.told[s.told.len() as int] == Command::InvalidateLayout(s.tab().id));
    }
}

/// A zoom that is set is the one the page is drawn at and the chrome shows. It is remembered of
/// the site the tab is on, or forgotten where it is the page's own size, and that is saved
/// where it is news. The page holds the reader's place and is laid out again. One of the
/// browser's own pages is remembered nothing of.
pub proof fn a_zoom_that_is_set_is_drawn_and_remembered(s: State, zoom: u32)
    requires
        250_000 <= zoom <= 5_000_000,
        zoom != s.zoom,
    ensures
        ({
            let after = zoomed(s, zoom);
            let tab = s.tab();
            let on_site = tab.system is None && tab.site is Some;
            &&& after.zoom == zoom
            &&& after.chrome.zoom == zoom
            &&& after.tabs == s.tabs
            &&& !on_site ==> after.zooms == s.zooms
            &&& on_site && zoom != 1_000_000 ==> after.zooms.dom().contains(tab.site->0)
                && after.zooms[tab.site->0] == zoom
            &&& on_site && zoom == 1_000_000 ==> !after.zooms.dom().contains(tab.site->0)
            &&& forall|other: Seq<char>|
                tab.site != Some(other) ==> #[trigger] after.zooms.dom().contains(other)
                    == s.zooms.dom().contains(other) && after.zooms[other] == s.zooms[other]
            &&& tab.page is Some ==> {
                &&& after.told.len() >= s.told.len() + 2
                &&& after.told[s.told.len() as int] == Command::HoldPlace(tab.id)
                &&& after.told.last() == Command::InvalidateLayout(tab.id)
            }
            &&& tab.page is None && after.zooms == s.zooms ==> after.told == s.told
            &&& after.zooms != s.zooms ==> exists|i: int|
                s.told.len() <= i < after.told.len() && #[trigger] after.told[i]
                    == Command::SavePreferences
        }),
{
    reveal(saying);
    let after = zoomed(s, zoom);
    if after.zooms != s.zooms {
        let held = if s.tab().page is Some {
            1int
        } else {
            0
        };
        assert(after.told[s.told.len() + held] == Command::SavePreferences);
    }
}

/// Preferences that changed are saved, and what they say of the scheme is in force at once;
/// ones that did not change nothing.
pub proof fn changed_preferences_are_saved(s: State, changed: bool)
    ensures
        !changed ==> preferences_saved(s, changed) == s,
        changed ==> {
            let after = preferences_saved(s, changed);
            &&& after.told == s.told.push(Command::SavePreferences)
            &&& s.settings.appearance == Appearance::Light ==> after.theme == Scheme::Light
            &&& s.settings.appearance == Appearance::Dark ==> after.theme == Scheme::Dark
            &&& s.settings.appearance == Appearance::System ==> after.theme == s.scheme
            &&& after.tabs == s.tabs
            &&& after.settings == s.settings
        },
{
}

} // verus!
