//! Building a page out of what arrived: what the document names is asked for, and what
//! it gets is gathered until nothing is outstanding.

use std::collections::HashMap;

use vstd::prelude::*;

use crate::address::address_synced;
use crate::arriving::among;
use crate::asking::{allowed, asking_for, subresource_url, Link, Wanted};
use crate::browser::{
    changing_a_tab_is_sound, stores_sound, Browser, Command, ExtrasView, FinishedLoad, ResourceKind,
    State,
};
use crate::images::{after_get, found, Picture};
use crate::navigation::history_recorded;
use crate::strip::showing_an_address_changes_no_tab;
use crate::tab::{
    Outstanding, Page, PageView, PendingLoad, PendingResource, PendingView, Shown, Tab, TabView,
};
use crate::text::{blank, is_blank, trim, trimmed};

verus! {

/// How many stylesheets one document may pull in.
///
/// A limit rather than none: a document that asks for hundreds is either generated or
/// hostile.
pub const STYLESHEET_LIMIT: usize = 32;

/// How many pictures one document may pull in, for the same reason.
pub const IMAGE_LIMIT: usize = 64;

/// How many scripts one page may link to.
///
/// A page with more than this many is not refused; its next script is not fetched.
pub const SCRIPT_LIMIT: usize = 32;

/// A `<link>` that names a stylesheet.
#[derive(Debug)]
pub struct SheetTag {
    pub node: u64,
    pub link: Link,
}

/// An `<img>`, the candidate it settled on as the markup spells it, and its density.
#[derive(Debug)]
pub struct PictureTag {
    pub node: u64,
    pub src: String,
    pub density: u32,
    pub link: Link,
}

/// A `<script>`, its `src` as the markup spells it if it has one, and where that leads.
#[derive(Debug)]
pub struct ScriptTag {
    pub node: u64,
    pub src: Option<String>,
    pub link: Link,
}

/// What a parse has made of a document, whether or not it has ended.
#[derive(Debug)]
pub struct Parsed {
    pub title: Option<String>,
    /// The stylesheets it links, in the order it names them.
    pub sheets: Vec<SheetTag>,
    /// The pictures it shows, in the order it names them.
    pub pictures: Vec<PictureTag>,
    /// The scripts the parse went past without running.
    pub deferred: Vec<ScriptTag>,
    /// The script the parse is stopped at, if it is.
    pub stopped_at: Option<ScriptTag>,
    /// Whether the page's own code is alive after the parse.
    pub runner: bool,
}

/// A script with an address to fetch it from.
#[derive(Debug)]
pub struct NamedScript {
    pub node: u64,
    pub src: String,
    pub link: Link,
}

/// A script with an address to fetch it from.
pub struct NamedView {
    pub node: u64,
    pub src: Seq<char>,
    pub link: Link,
}

impl DeepView for NamedScript {
    type V = NamedView;

    open spec fn deep_view(&self) -> NamedView {
        NamedView { node: self.node, src: self.src@, link: self.link }
    }
}

/// A picture that was there already, for the element that shows it.
#[derive(Clone, Copy, Debug, PartialEq, Eq, Structural)]
pub struct Ready {
    pub node: u64,
    pub shown: Shown,
}

/// The first `limit` of a run, or all of it.
pub open spec fn at_most<T>(run: Seq<T>, limit: int) -> Seq<T> {
    if run.len() <= limit {
        run
    } else {
        run.take(limit)
    }
}

/// What a stylesheet's link wants.
pub open spec fn sheet_wanted(tag: SheetTag) -> Wanted {
    Wanted {
        link: tag.link,
        resource: PendingResource::Stylesheet(tag.node),
        kind: ResourceKind::Stylesheet,
    }
}

/// What a document wants of the stylesheets it links.
pub open spec fn sheets_wanted(tags: Seq<SheetTag>) -> Seq<Wanted> {
    at_most(tags, STYLESHEET_LIMIT as int).map_values(|tag: SheetTag| sheet_wanted(tag))
}

/// What an element that shows a picture wants.
pub open spec fn picture_wanted(tag: PictureTag) -> Wanted {
    Wanted {
        link: tag.link,
        resource: PendingResource::Image(tag.node, tag.src, tag.density),
        kind: ResourceKind::Image,
    }
}

/// A document's pictures sorted into those that were there already and those wanted.
pub struct Sorting {
    pub images: Seq<(Seq<char>, Picture)>,
    pub ready: Seq<Ready>,
    pub wanted: Seq<Wanted>,
}

/// One picture more sorted.
pub open spec fn picture_sorted(sorting: Sorting, tag: PictureTag) -> Sorting {
    match allowed(tag.link) {
        None => Sorting { wanted: sorting.wanted.push(picture_wanted(tag)), ..sorting },
        Some(url) => match found(sorting.images, url) {
            Some(picture) => Sorting {
                images: after_get(sorting.images, url),
                ready: sorting.ready.push(
                    Ready { node: tag.node, shown: Shown { picture, density: tag.density } },
                ),
                ..sorting
            },
            None => Sorting { wanted: sorting.wanted.push(picture_wanted(tag)), ..sorting },
        },
    }
}

/// Several pictures sorted in turn.
pub open spec fn pictures_sorted(images: Seq<(Seq<char>, Picture)>, tags: Seq<PictureTag>) -> Sorting
    decreases tags.len(),
{
    if tags.len() == 0 {
        Sorting { images, ready: seq![], wanted: seq![] }
    } else {
        picture_sorted(pictures_sorted(images, tags.drop_last()), tags.last())
    }
}

/// A script's address without the white space round it, if it names one.
pub open spec fn script_named(tag: ScriptTag) -> Option<NamedView> {
    match tag.src {
        Some(src) => if blank(src@) {
            None
        } else {
            Some(NamedView { node: tag.node, src: trimmed(src@), link: tag.link })
        },
        None => None,
    }
}

/// The scripts among `tags` that name an address.
pub open spec fn scripts_named(tags: Seq<ScriptTag>) -> Seq<NamedView>
    decreases tags.len(),
{
    if tags.len() == 0 {
        seq![]
    } else {
        match script_named(tags.last()) {
            Some(script) => scripts_named(tags.drop_last()).push(script),
            None => scripts_named(tags.drop_last()),
        }
    }
}

/// The deferred scripts a document gets, in the order it names them.
pub open spec fn scripts_deferred(tags: Seq<ScriptTag>) -> Seq<NamedView> {
    at_most(scripts_named(tags), SCRIPT_LIMIT as int)
}

/// The script a parse is stopped at, first, and then those that were deferred.
pub open spec fn scripts_in_order(stopped_at: Option<ScriptTag>, deferred: Seq<NamedView>) -> Seq<
    NamedView,
> {
    match stopped_at {
        Some(tag) => match script_named(tag) {
            Some(script) => seq![script] + deferred,
            None => deferred,
        },
        None => deferred,
    }
}

/// Whether a request that is out already is for the script at `src`.
pub open spec fn is_preload_of(held: Outstanding, src: Seq<char>) -> bool {
    held.resource matches PendingResource::ScriptSource(source) && source@ == src
}

/// The number of the request that is out already for the script at `src`, if one is.
pub open spec fn preload_of(held: Seq<Outstanding>, src: Seq<char>) -> Option<u64>
    decreases held.len(),
{
    if held.len() == 0 {
        None
    } else if is_preload_of(held.first(), src) {
        Some(held.first().id)
    } else {
        preload_of(held.drop_first(), src)
    }
}

/// Scripts matched with the requests that are out already.
pub struct Adopting {
    pub held: Seq<Outstanding>,
    pub wanted: Seq<Wanted>,
}

/// What a script wants.
pub open spec fn script_wanted(script: NamedView) -> Wanted {
    Wanted {
        link: script.link,
        resource: PendingResource::Script(script.node),
        kind: ResourceKind::Script,
    }
}

/// One script more matched: it takes the answer of a request that is out already, or is
/// wanted.
pub open spec fn script_adopted(adopting: Adopting, script: NamedView) -> Adopting {
    match preload_of(adopting.held, script.src) {
        Some(id) => Adopting {
            held: adopting.held.push(
                Outstanding { id, resource: PendingResource::Script(script.node) },
            ),
            ..adopting
        },
        None => Adopting { wanted: adopting.wanted.push(script_wanted(script)), ..adopting },
    }
}

/// Several scripts matched in turn.
pub open spec fn scripts_adopted(held: Seq<Outstanding>, scripts: Seq<NamedView>) -> Adopting
    decreases scripts.len(),
{
    if scripts.len() == 0 {
        Adopting { held, wanted: seq![] }
    } else {
        script_adopted(scripts_adopted(held, scripts.drop_last()), scripts.last())
    }
}

/// What is shown where `ready` is added to it.
pub open spec fn images_with(images: Map<u64, Shown>, ready: Seq<Ready>) -> Map<u64, Shown>
    decreases ready.len(),
{
    if ready.len() == 0 {
        images
    } else {
        images_with(images, ready.drop_last()).insert(ready.last().node, ready.last().shown)
    }
}

/// A tab whose document has come, and whose preloads have been taken from it.
pub open spec fn document_here(tab: TabView) -> TabView {
    TabView {
        pending: match tab.pending {
            Some(load) => Some(
                PendingView { document_arrived: true, outstanding: seq![], ..load },
            ),
            None => None,
        },
        ..tab
    }
}

/// What a tab's load has outstanding.
pub open spec fn outstanding_of(tab: TabView) -> Seq<Outstanding> {
    match tab.pending {
        Some(load) => load.outstanding,
        None => seq![],
    }
}

/// A tab that shows the document it was given from `url`.
pub open spec fn showing(
    tab: TabView,
    url: Seq<char>,
    site: Option<Seq<char>>,
    title: Option<Seq<char>>,
) -> TabView {
    TabView {
        title: match title {
            Some(title) => title,
            None => url,
        },
        url,
        site,
        page: Some(PageView { scroll: 0, search: None }),
        ..tab
    }
}

/// A tab whose load waits for this.
pub open spec fn load_filled(
    tab: TabView,
    outstanding: Seq<Outstanding>,
    ready: Seq<Ready>,
    script_order: Seq<u64>,
    runner: bool,
    parse: Option<u64>,
    seen: Seq<u64>,
) -> TabView {
    TabView {
        pending: match tab.pending {
            Some(load) => Some(
                PendingView {
                    outstanding,
                    images: images_with(load.images, ready),
                    script_order,
                    runner,
                    parse,
                    seen,
                    ..load
                },
            ),
            None => None,
        },
        ..tab
    }
}

/// A browser whose next page names its own backgrounds.
pub open spec fn backgrounds_forgotten(s: State) -> State {
    State { extras: ExtrasView { background_requests: seq![], ..s.extras }, ..s }
}

/// A tab whose load is over.
pub open spec fn loaded(tab: TabView, load: PendingView) -> TabView {
    TabView {
        pending: None,
        scripts: load.runner,
        page: match tab.page {
            Some(_) => Some(PageView { scroll: load.restore_scroll, search: None }),
            None => None,
        },
        ..tab
    }
}

/// A browser that has everything the load in the tab at `index` asked for. The page that
/// is built of it is drawn as the one it replaces was: where no interface is drawn, without
/// scrollbars.
pub open spec fn load_finished(s: State, index: int) -> State {
    let fresh = backgrounds_forgotten(s);
    let tab = s.tabs[index];
    match tab.pending {
        None => fresh,
        Some(load) => State {
            finished: s.finished.push((tab.id, load)),
            ..fresh.with_tab_at(index, loaded(tab, load))
        }.telling_if(
            tab.page is Some,
            Command::SetScroll(tab.id, load.restore_scroll),
        ).telling_if(tab.page is Some && !s.interface, Command::HideScrollbars(tab.id)),
    }
}

/// Whether the load in a tab has nothing outstanding, and no parse that has stopped.
pub open spec fn is_settled(tab: TabView) -> bool {
    tab.pending matches Some(load) && load.outstanding.len() == 0 && load.parse is None
}

/// A browser that finishes the load in the tab at `index` if nothing is outstanding.
pub open spec fn finished_if_settled(s: State, index: int) -> State {
    if is_settled(s.tabs[index]) {
        load_finished(s, index)
    } else {
        s
    }
}

/// A browser whose cache was asked for pictures.
pub open spec fn with_images(s: State, images: Seq<(Seq<char>, Picture)>) -> State {
    State { extras: ExtrasView { images, ..s.extras }, ..s }
}

/// What a document's asking comes to: the browser that has put it on the wire, and what
/// is outstanding and ready.
pub struct Gathered {
    pub state: State,
    pub outstanding: Seq<Outstanding>,
    pub ready: Seq<Ready>,
}

/// What a document asks for when some of its scripts are out already.
pub open spec fn gathered(
    s: State,
    held: Seq<Outstanding>,
    sheets: Seq<SheetTag>,
    pictures: Seq<PictureTag>,
    scripts: Seq<NamedView>,
) -> Gathered {
    let styled = asking_for(s, seq![], sheets_wanted(sheets));
    let sorting = pictures_sorted(
        styled.state.extras.images,
        at_most(pictures, IMAGE_LIMIT as int),
    );
    let pictured = asking_for(
        with_images(styled.state, sorting.images),
        styled.outstanding,
        sorting.wanted,
    );
    let adopting = scripts_adopted(held, scripts);
    let scripted = asking_for(
        pictured.state,
        pictured.outstanding + adopting.held,
        adopting.wanted,
    );
    Gathered { state: scripted.state, outstanding: scripted.outstanding, ready: sorting.ready }
}

/// The nodes of a run of scripts.
pub open spec fn nodes_of(scripts: Seq<NamedView>) -> Seq<u64> {
    scripts.map_values(|script: NamedView| script.node)
}

/// The node a parse is stopped at, if it is.
pub open spec fn stop_of(stopped_at: Option<ScriptTag>) -> Option<u64> {
    match stopped_at {
        Some(tag) => Some(tag.node),
        None => None,
    }
}

/// A browser that shows the document in the tab at `index`.
pub open spec fn page_shown(
    s: State,
    index: int,
    url: Seq<char>,
    site: Option<Seq<char>>,
    title: Option<Seq<char>>,
) -> State {
    let there = s.with_tab_at(index, showing(s.tabs[index], url, site, title)).telling_if(
        !s.interface,
        Command::HideScrollbars(s.tabs[index].id),
    );
    if index == s.active {
        address_synced(there)
    } else {
        there
    }
}

/// A browser that has put a parsed document in the tab at `index`.
pub open spec fn document_built(
    s: State,
    index: int,
    url: Seq<char>,
    site: Option<Seq<char>>,
    parsed: Parsed,
) -> State {
    let here = s.with_tab_at(index, document_here(s.tabs[index]));
    let deferred = scripts_deferred(parsed.deferred@);
    let got = gathered(
        here,
        outstanding_of(s.tabs[index]),
        parsed.sheets@,
        parsed.pictures@,
        scripts_in_order(parsed.stopped_at, deferred),
    );
    let shown = page_shown(got.state, index, url, site, parsed.title.deep_view());
    build_completed(
        shown,
        index,
        got.outstanding,
        got.ready,
        nodes_of(deferred),
        parsed.runner,
        stop_of(parsed.stopped_at),
        elements_seen(parsed.sheets@, parsed.pictures@),
    )
}

/// The elements whose stylesheet or picture is seen to where a document names these.
pub open spec fn elements_seen(sheets: Seq<SheetTag>, pictures: Seq<PictureTag>) -> Seq<u64> {
    at_most(sheets, STYLESHEET_LIMIT as int).map_values(|tag: SheetTag| tag.node) + at_most(
        pictures,
        IMAGE_LIMIT as int,
    ).map_values(|tag: PictureTag| tag.node)
}

/// The stylesheets among `tags` that have not been seen to.
pub open spec fn sheets_left(tags: Seq<SheetTag>, seen: Seq<u64>) -> Seq<SheetTag>
    decreases tags.len(),
{
    if tags.len() == 0 {
        seq![]
    } else if seen.contains(tags.last().node) {
        sheets_left(tags.drop_last(), seen)
    } else {
        sheets_left(tags.drop_last(), seen).push(tags.last())
    }
}

/// The pictures among `tags` that have not been seen to.
pub open spec fn pictures_left(tags: Seq<PictureTag>, seen: Seq<u64>) -> Seq<PictureTag>
    decreases tags.len(),
{
    if tags.len() == 0 {
        seq![]
    } else if seen.contains(tags.last().node) {
        pictures_left(tags.drop_last(), seen)
    } else {
        pictures_left(tags.drop_last(), seen).push(tags.last())
    }
}

/// The scripts among `scripts` that are not to be run already.
pub open spec fn scripts_left(scripts: Seq<NamedView>, order: Seq<u64>) -> Seq<NamedView>
    decreases scripts.len(),
{
    if scripts.len() == 0 {
        seq![]
    } else if order.contains(scripts.last().node) {
        scripts_left(scripts.drop_last(), order)
    } else {
        scripts_left(scripts.drop_last(), order).push(scripts.last())
    }
}

/// A tab whose load waits for more, now that its whole document is parsed.
pub open spec fn load_grown(
    tab: TabView,
    outstanding: Seq<Outstanding>,
    ready: Seq<Ready>,
    scripts: Seq<u64>,
    seen: Seq<u64>,
    runner: bool,
    title: Option<Seq<char>>,
) -> TabView {
    TabView {
        pending: match tab.pending {
            Some(load) => Some(
                PendingView {
                    outstanding,
                    images: images_with(load.images, ready),
                    script_order: load.script_order + scripts,
                    seen: load.seen + seen,
                    runner: load.runner || runner,
                    ..load
                },
            ),
            None => None,
        },
        title: match title {
            Some(title) => title,
            None => tab.title,
        },
        ..tab
    }
}

/// A browser whose tab at `index` has its whole document parsed: what the document names
/// and was not seen to where the parse was stopped is asked for, before the page is built
/// for real. The limits are on the document as a whole.
pub open spec fn document_parsed(s: State, index: int, parsed: Parsed) -> State {
    match s.tabs[index].pending {
        None => s,
        Some(load) => {
            let here = s.with_tab_at(index, document_here(s.tabs[index]));
            let sheets = sheets_left(at_most(parsed.sheets@, STYLESHEET_LIMIT as int), load.seen);
            let pictures = pictures_left(at_most(parsed.pictures@, IMAGE_LIMIT as int), load.seen);
            let scripts = scripts_left(scripts_deferred(parsed.deferred@), load.script_order);
            let got = gathered(here, load.outstanding, sheets, pictures, scripts);
            got.state.with_tab_at(
                index,
                load_grown(
                    got.state.tabs[index],
                    got.outstanding,
                    got.ready,
                    nodes_of(scripts),
                    elements_seen(sheets, pictures),
                    parsed.runner,
                    parsed.title.deep_view(),
                ),
            )
        },
    }
}

/// What a document wants of the stylesheets it links.
fn want_sheets(tags: Vec<SheetTag>) -> (wanted: Vec<Wanted>)
    ensures
        wanted@ == sheets_wanted(tags@),
{
    let ghost all = tags@;
    let ghost kept = at_most(all, STYLESHEET_LIMIT as int);
    let mut left: Vec<SheetTag> = tags;
    left.truncate(STYLESHEET_LIMIT);
    assert(left@ =~= kept);
    let count: usize = left.len();
    let mut wanted: Vec<Wanted> = Vec::new();
    let mut done: usize = 0;
    assert(kept.skip(0) =~= kept);
    while done < count
        invariant
            done <= count,
            count == kept.len(),
            left@ == kept.skip(done as int),
            wanted@.len() == done,
            forall|i: int| 0 <= i < done ==> #[trigger] wanted@[i] == sheet_wanted(kept[i]),
        decreases count - done,
    {
        let tag = left.remove(0);
        proof {
            assert(tag == kept[done as int]);
            assert(left@ =~= kept.skip(done + 1));
        }
        wanted.push(
            Wanted {
                link: tag.link,
                resource: PendingResource::Stylesheet(tag.node),
                kind: ResourceKind::Stylesheet,
            },
        );
        done = done + 1;
    }
    assert(wanted@ =~= sheets_wanted(all));
    wanted
}

/// The script's address without the white space round it, if it names one.
pub(crate) fn name_script(tag: ScriptTag) -> (script: Option<NamedScript>)
    ensures
        script.deep_view() == script_named(tag),
{
    match tag.src {
        Some(src) => if is_blank(src.as_str()) {
            None
        } else {
            Some(NamedScript { node: tag.node, src: trim(src.as_str()), link: tag.link })
        },
        None => None,
    }
}

/// The scripts among `tags` that name an address.
fn name_scripts(tags: Vec<ScriptTag>) -> (scripts: Vec<NamedScript>)
    ensures
        scripts.deep_view() == scripts_named(tags@),
{
    let ghost all = tags@;
    let count: usize = tags.len();
    let mut left: Vec<ScriptTag> = tags;
    let mut scripts: Vec<NamedScript> = Vec::new();
    let mut done: usize = 0;
    proof {
        assert(all.skip(0) =~= all);
        assert(all.take(0) =~= seq![]);
        assert(scripts.deep_view() =~= seq![]);
    }
    while done < count
        invariant
            done <= count,
            count == all.len(),
            left@ == all.skip(done as int),
            scripts.deep_view() == scripts_named(all.take(done as int)),
        decreases count - done,
    {
        let tag = left.remove(0);
        proof {
            assert(tag == all[done as int]);
            assert(left@ =~= all.skip(done + 1));
            let longer = all.take(done + 1);
            assert(longer.drop_last() =~= all.take(done as int));
            assert(longer.last() == tag);
        }
        let ghost so_far = scripts.deep_view();
        match name_script(tag) {
            Some(script) => {
                scripts.push(script);
                assert(scripts.deep_view() =~= so_far.push(script.deep_view()));
            },
            None => {},
        }
        done = done + 1;
    }
    assert(all.take(count as int) =~= all);
    scripts
}

/// The deferred scripts a document gets, in the order it names them.
fn defer_scripts(tags: Vec<ScriptTag>) -> (scripts: Vec<NamedScript>)
    ensures
        scripts.deep_view() == scripts_deferred(tags@),
{
    let mut scripts = name_scripts(tags);
    let ghost named = scripts.deep_view();
    scripts.truncate(SCRIPT_LIMIT);
    assert(scripts.deep_view() =~= at_most(named, SCRIPT_LIMIT as int));
    scripts
}

/// The script a parse is stopped at, first, and then those that were deferred.
fn order_scripts(stopped_at: Option<ScriptTag>, deferred: Vec<NamedScript>) -> (scripts: Vec<
    NamedScript,
>)
    ensures
        scripts.deep_view() == scripts_in_order(stopped_at, deferred.deep_view()),
{
    let ghost last = deferred.deep_view();
    let mut deferred: Vec<NamedScript> = deferred;
    let mut scripts: Vec<NamedScript> = Vec::new();
    match stopped_at {
        Some(tag) => match name_script(tag) {
            Some(script) => scripts.push(script),
            None => {},
        },
        None => {},
    }
    let ghost first = scripts.deep_view();
    scripts.append(&mut deferred);
    assert(scripts.deep_view() =~= first + last);
    assert(scripts.deep_view() =~= scripts_in_order(stopped_at, last));
    scripts
}

/// The number of the request that is out already for the script at `src`, if one is.
fn find_preload(held: &Vec<Outstanding>, src: &String) -> (id: Option<u64>)
    ensures
        id == preload_of(held@, src@),
{
    let mut at: usize = 0;
    assert(held@.skip(0) =~= held@);
    while at < held.len()
        invariant
            at <= held.len(),
            preload_of(held@, src@) == preload_of(held@.skip(at as int), src@),
        decreases held.len() - at,
    {
        proof {
            assert(held@.skip(at as int).first() == held@[at as int]);
            assert(held@.skip(at as int).drop_first() =~= held@.skip(at + 1));
        }
        match &held[at].resource {
            PendingResource::ScriptSource(source) => {
                if *source == *src {
                    return Some(held[at].id);
                }
            },
            _ => {},
        }
        at = at + 1;
    }
    None
}

/// Match scripts with the requests that are out already: each takes the answer of one,
/// or is wanted. Asking again would be a second request for a file already coming.
fn adopt_scripts(held: Vec<Outstanding>, scripts: Vec<NamedScript>) -> (adopted: (
    Vec<Outstanding>,
    Vec<Wanted>,
))
    ensures
        adopted.0@ == scripts_adopted(held@, scripts.deep_view()).held,
        adopted.1@ == scripts_adopted(held@, scripts.deep_view()).wanted,
{
    let ghost first = held@;
    let ghost all = scripts.deep_view();
    let count: usize = scripts.len();
    let mut left: Vec<NamedScript> = scripts;
    let mut held: Vec<Outstanding> = held;
    let mut wanted: Vec<Wanted> = Vec::new();
    let mut done: usize = 0;
    proof {
        assert(all.skip(0) =~= all);
        assert(all.take(0) =~= seq![]);
    }
    while done < count
        invariant
            done <= count,
            count == all.len(),
            left.deep_view() == all.skip(done as int),
            left@.len() == count - done,
            held@ == scripts_adopted(first, all.take(done as int)).held,
            wanted@ == scripts_adopted(first, all.take(done as int)).wanted,
        decreases count - done,
    {
        let ghost waiting = left.deep_view();
        let script = left.remove(0);
        proof {
            assert(script.deep_view() == waiting[0]);
            assert(left.deep_view() =~= waiting.drop_first());
            assert(waiting.drop_first() =~= all.skip(done + 1));
            let longer = all.take(done + 1);
            assert(longer.drop_last() =~= all.take(done as int));
            assert(longer.last() == script.deep_view());
        }
        match find_preload(&held, &script.src) {
            Some(id) => {
                held.push(Outstanding { id, resource: PendingResource::Script(script.node) });
            },
            None => {
                wanted.push(
                    Wanted {
                        link: script.link,
                        resource: PendingResource::Script(script.node),
                        kind: ResourceKind::Script,
                    },
                );
            },
        }
        done = done + 1;
    }
    assert(all.take(count as int) =~= all);
    (held, wanted)
}

/// The nodes of a run of scripts.
fn script_nodes(scripts: &Vec<NamedScript>) -> (nodes: Vec<u64>)
    ensures
        nodes@ == nodes_of(scripts.deep_view()),
{
    let ghost all = scripts.deep_view();
    let mut nodes: Vec<u64> = Vec::new();
    let mut at: usize = 0;
    while at < scripts.len()
        invariant
            at <= scripts.len(),
            all == scripts.deep_view(),
            nodes@.len() == at,
            forall|i: int| 0 <= i < at ==> #[trigger] nodes@[i] == all[i].node,
        decreases scripts.len() - at,
    {
        nodes.push(scripts[at].node);
        at = at + 1;
    }
    assert(nodes@ =~= nodes_of(all));
    nodes
}

/// The elements whose stylesheet or picture is seen to where a document names these.
fn see_elements(sheets: &Vec<SheetTag>, pictures: &Vec<PictureTag>) -> (seen: Vec<u64>)
    ensures
        seen@ == elements_seen(sheets@, pictures@),
{
    let ghost styled = at_most(sheets@, STYLESHEET_LIMIT as int);
    let ghost pictured = at_most(pictures@, IMAGE_LIMIT as int);
    let mut seen: Vec<u64> = Vec::new();
    let mut at: usize = 0;
    while at < sheets.len() && at < STYLESHEET_LIMIT
        invariant
            at <= styled.len(),
            styled == at_most(sheets@, STYLESHEET_LIMIT as int),
            seen@ == styled.take(at as int).map_values(|tag: SheetTag| tag.node),
        decreases sheets.len() - at,
    {
        seen.push(sheets[at].node);
        at = at + 1;
        assert(seen@ =~= styled.take(at as int).map_values(|tag: SheetTag| tag.node));
    }
    assert(styled.take(at as int) =~= styled);
    let ghost first = seen@;
    let mut at: usize = 0;
    while at < pictures.len() && at < IMAGE_LIMIT
        invariant
            at <= pictured.len(),
            pictured == at_most(pictures@, IMAGE_LIMIT as int),
            seen@ == first + pictured.take(at as int).map_values(|tag: PictureTag| tag.node),
        decreases pictures.len() - at,
    {
        seen.push(pictures[at].node);
        at = at + 1;
        assert(seen@ =~= first + pictured.take(at as int).map_values(
            |tag: PictureTag| tag.node,
        ));
    }
    assert(pictured.take(at as int) =~= pictured);
    seen
}

/// The stylesheets among the first of `tags` that have not been seen to.
fn leave_sheets(tags: Vec<SheetTag>, seen: &Vec<u64>) -> (left: Vec<SheetTag>)
    ensures
        left@ == sheets_left(at_most(tags@, STYLESHEET_LIMIT as int), seen@),
{
    let ghost all = at_most(tags@, STYLESHEET_LIMIT as int);
    let mut tags: Vec<SheetTag> = tags;
    tags.truncate(STYLESHEET_LIMIT);
    assert(tags@ =~= all);
    let count: usize = tags.len();
    let mut left: Vec<SheetTag> = Vec::new();
    let mut done: usize = 0;
    assert(all.skip(0) =~= all);
    assert(all.take(0) =~= seq![]);
    while done < count
        invariant
            done <= count,
            count == all.len(),
            tags@ == all.skip(done as int),
            left@ == sheets_left(all.take(done as int), seen@),
        decreases count - done,
    {
        let tag = tags.remove(0);
        proof {
            assert(tag == all[done as int]);
            assert(tags@ =~= all.skip(done + 1));
            assert(all.take(done + 1).drop_last() =~= all.take(done as int));
        }
        if !among(seen, tag.node) {
            left.push(tag);
        }
        done = done + 1;
    }
    assert(all.take(count as int) =~= all);
    left
}

/// The pictures among the first of `tags` that have not been seen to.
fn leave_pictures(tags: Vec<PictureTag>, seen: &Vec<u64>) -> (left: Vec<PictureTag>)
    ensures
        left@ == pictures_left(at_most(tags@, IMAGE_LIMIT as int), seen@),
{
    let ghost all = at_most(tags@, IMAGE_LIMIT as int);
    let mut tags: Vec<PictureTag> = tags;
    tags.truncate(IMAGE_LIMIT);
    assert(tags@ =~= all);
    let count: usize = tags.len();
    let mut left: Vec<PictureTag> = Vec::new();
    let mut done: usize = 0;
    assert(all.skip(0) =~= all);
    assert(all.take(0) =~= seq![]);
    while done < count
        invariant
            done <= count,
            count == all.len(),
            tags@ == all.skip(done as int),
            left@ == pictures_left(all.take(done as int), seen@),
        decreases count - done,
    {
        let tag = tags.remove(0);
        proof {
            assert(tag == all[done as int]);
            assert(tags@ =~= all.skip(done + 1));
            assert(all.take(done + 1).drop_last() =~= all.take(done as int));
        }
        if !among(seen, tag.node) {
            left.push(tag);
        }
        done = done + 1;
    }
    assert(all.take(count as int) =~= all);
    left
}

/// The scripts among `scripts` that are not to be run already.
fn leave_scripts(scripts: Vec<NamedScript>, order: &Vec<u64>) -> (left: Vec<NamedScript>)
    ensures
        left.deep_view() == scripts_left(scripts.deep_view(), order@),
{
    let ghost all = scripts.deep_view();
    let count: usize = scripts.len();
    let mut scripts: Vec<NamedScript> = scripts;
    let mut left: Vec<NamedScript> = Vec::new();
    let mut done: usize = 0;
    assert(all.skip(0) =~= all);
    assert(all.take(0) =~= seq![]);
    assert(left.deep_view() =~= seq![]);
    while done < count
        invariant
            done <= count,
            count == all.len(),
            scripts.deep_view() == all.skip(done as int),
            left.deep_view() == scripts_left(all.take(done as int), order@),
        decreases count - done,
    {
        let ghost before = left.deep_view();
        let ghost rest = scripts.deep_view();
        assert(rest.len() == scripts@.len());
        let script = scripts.remove(0);
        proof {
            assert(script.deep_view() == rest[0]);
            assert(scripts.deep_view() =~= rest.remove(0));
            assert(rest.remove(0) =~= all.skip(done + 1));
            assert(all.take(done + 1).drop_last() =~= all.take(done as int));
        }
        if !among(order, script.node) {
            left.push(script);
            assert(left.deep_view() =~= before.push(script.deep_view()));
        }
        done = done + 1;
    }
    assert(all.take(count as int) =~= all);
    left
}

/// Put `ready` among what is shown.
fn add_ready(images: &mut HashMap<u64, Shown>, ready: Vec<Ready>)
    ensures
        final(images)@ == images_with(old(images)@, ready@),
{
    let ghost before = images@;
    let mut at: usize = 0;
    assert(ready@.take(0) =~= seq![]);
    while at < ready.len()
        invariant
            at <= ready.len(),
            images@ == images_with(before, ready@.take(at as int)),
        decreases ready.len() - at,
    {
        proof {
            let longer = ready@.take(at + 1);
            assert(longer.drop_last() =~= ready@.take(at as int));
            assert(longer.last() == ready@[at as int]);
        }
        let one = ready[at];
        let _ = images.insert(one.node, one.shown);
        at = at + 1;
    }
    assert(ready@.take(ready@.len() as int) =~= ready@);
}

impl Tab {
    /// Note that the document has come, and hand over what is outstanding.
    fn take_document(&mut self) -> (held: Vec<Outstanding>)
        ensures
            final(self)@ == document_here(old(self)@),
            held@ == outstanding_of(old(self)@),
    {
        match self.pending.take() {
            None => Vec::new(),
            Some(load) => {
                let mut load = load;
                let mut held: Vec<Outstanding> = Vec::new();
                std::mem::swap(&mut held, &mut load.outstanding);
                load.document_arrived = true;
                self.pending = Some(load);
                held
            },
        }
    }

    /// Show the document that came from `url`.
    fn show(&mut self, url: String, site: Option<String>, title: Option<String>)
        ensures
            final(self)@ == showing(old(self)@, url@, site.deep_view(), title.deep_view()),
    {
        self.title = match title {
            Some(title) => title,
            None => url.clone(),
        };
        self.url = url;
        self.site = site;
        self.page = Some(Page { scroll: 0, search: None });
    }

    /// Wait for this, if a load is in flight.
    fn fill_load(
        &mut self,
        outstanding: Vec<Outstanding>,
        ready: Vec<Ready>,
        script_order: Vec<u64>,
        runner: bool,
        parse: Option<u64>,
        seen: Vec<u64>,
    )
        ensures
            final(self)@ == load_filled(
                old(self)@,
                outstanding@,
                ready@,
                script_order@,
                runner,
                parse,
                seen@,
            ),
    {
        match self.pending.take() {
            None => {},
            Some(load) => {
                let mut load = load;
                load.outstanding = outstanding;
                add_ready(&mut load.images, ready);
                load.script_order = script_order;
                load.runner = runner;
                load.parse = parse;
                load.seen = seen;
                self.pending = Some(load);
            },
        }
    }

    /// Wait for more, if a load is in flight, now that its whole document is parsed.
    fn grow_load(
        &mut self,
        outstanding: Vec<Outstanding>,
        ready: Vec<Ready>,
        scripts: Vec<u64>,
        seen: Vec<u64>,
        runner: bool,
        title: Option<String>,
    )
        ensures
            final(self)@ == load_grown(
                old(self)@,
                outstanding@,
                ready@,
                scripts@,
                seen@,
                runner,
                title.deep_view(),
            ),
    {
        match title {
            Some(title) => {
                self.title = title;
            },
            None => {},
        }
        match self.pending.take() {
            None => {},
            Some(load) => {
                let mut load = load;
                let mut scripts: Vec<u64> = scripts;
                let mut seen: Vec<u64> = seen;
                load.outstanding = outstanding;
                add_ready(&mut load.images, ready);
                load.script_order.append(&mut scripts);
                load.seen.append(&mut seen);
                load.runner = load.runner || runner;
                self.pending = Some(load);
            },
        }
    }

    /// End the load, and hand over what it got.
    fn finish(&mut self) -> (load: Option<PendingLoad>)
        ensures
            load.deep_view() == old(self)@.pending,
            final(self)@ == match old(self)@.pending {
                Some(load) => loaded(old(self)@, load),
                None => old(self)@,
            },
    {
        match self.pending.take() {
            None => None,
            Some(load) => {
                self.scripts = load.runner;
                if self.page.is_some() {
                    self.page = Some(Page { scroll: load.restore_scroll, search: None });
                }
                Some(load)
            },
        }
    }

    /// Whether a load is in flight with nothing outstanding, and no parse that has stopped.
    pub fn settled(&self) -> (answer: bool)
        ensures
            answer == is_settled(self@),
    {
        match &self.pending {
            Some(load) => load.outstanding.len() == 0 && load.parse.is_none(),
            None => false,
        }
    }
}

impl Browser {
    /// The picture kept under `url`, if there is one, marked as just used.
    pub fn cached_picture(&mut self, url: &String) -> (picture: Option<Picture>)
        requires
            old(self).wf(),
        ensures
            final(self).wf(),
            final(self)@ == with_images(
                old(self)@,
                after_get(old(self)@.extras.images, url@),
            ),
            picture == found(old(self)@.extras.images, url@),
    {
        proof {
            reveal(Browser::state);
            reveal(stores_sound);
        }
        self.extras.images.get(url.as_str())
    }

    /// Sort a document's pictures into those that were decoded for an earlier page and
    /// are still here, and those wanted.
    fn sort_pictures(&mut self, tags: Vec<PictureTag>) -> (sorted: (Vec<Ready>, Vec<Wanted>))
        requires
            old(self).wf(),
        ensures
            final(self).wf(),
            final(self)@ == with_images(
                old(self)@,
                pictures_sorted(old(self)@.extras.images, tags@).images,
            ),
            sorted.0@ == pictures_sorted(old(self)@.extras.images, tags@).ready,
            sorted.1@ == pictures_sorted(old(self)@.extras.images, tags@).wanted,
    {
        let ghost before = self@;
        let ghost images = before.extras.images;
        let ghost all = tags@;
        let count: usize = tags.len();
        let mut left: Vec<PictureTag> = tags;
        let mut ready: Vec<Ready> = Vec::new();
        let mut wanted: Vec<Wanted> = Vec::new();
        let mut done: usize = 0;
        proof {
            assert(all.skip(0) =~= all);
            assert(all.take(0) =~= seq![]);
            assert(before == with_images(before, images));
        }
        while done < count
            invariant
                done <= count,
                count == all.len(),
                left@ == all.skip(done as int),
                self.wf(),
                images == before.extras.images,
                ({
                    let now = pictures_sorted(images, all.take(done as int));
                    &&& self@ == with_images(before, now.images)
                    &&& ready@ == now.ready
                    &&& wanted@ == now.wanted
                }),
            decreases count - done,
        {
            let tag = left.remove(0);
            proof {
                assert(tag == all[done as int]);
                assert(left@ =~= all.skip(done + 1));
                let longer = all.take(done + 1);
                assert(longer.drop_last() =~= all.take(done as int));
                assert(longer.last() == tag);
            }
            let ghost now = pictures_sorted(images, all.take(done as int));
            match subresource_url(&tag.link) {
                None => {
                    wanted.push(
                        Wanted {
                            link: tag.link,
                            resource: PendingResource::Image(tag.node, tag.src, tag.density),
                            kind: ResourceKind::Image,
                        },
                    );
                },
                Some(url) => {
                    match self.cached_picture(&url) {
                        Some(picture) => {
                            ready.push(
                                Ready {
                                    node: tag.node,
                                    shown: Shown { picture, density: tag.density },
                                },
                            );
                        },
                        None => {
                            assert(after_get(now.images, url@) == now.images);
                            wanted.push(
                                Wanted {
                                    link: tag.link,
                                    resource: PendingResource::Image(
                                        tag.node,
                                        tag.src,
                                        tag.density,
                                    ),
                                    kind: ResourceKind::Image,
                                },
                            );
                        },
                    }
                },
            }
            done = done + 1;
        }
        assert(all.take(count as int) =~= all);
        (ready, wanted)
    }

    /// Note that the document of the tab at `index` has come, and hand over what is
    /// outstanding.
    fn take_document(&mut self, index: usize) -> (held: Vec<Outstanding>)
        requires
            old(self).wf(),
            index < old(self)@.tabs.len(),
        ensures
            final(self).wf(),
            final(self)@ == old(self)@.with_tab_at(
                index as int,
                document_here(old(self)@.tabs[index as int]),
            ),
            held@ == outstanding_of(old(self)@.tabs[index as int]),
    {
        proof {
            reveal(Browser::state);
        }
        let ghost before = self@;
        let held = self.tabs[index].take_document();
        proof {
            assert(self@.tabs =~= before.tabs.update(index as int, self@.tabs[index as int]));
            changing_a_tab_is_sound(before, index as int, self@.tabs[index as int]);
        }
        held
    }

    /// Ask for everything a document names, and say what is outstanding and what was
    /// there already.
    fn gather(
        &mut self,
        held: Vec<Outstanding>,
        sheets: Vec<SheetTag>,
        pictures: Vec<PictureTag>,
        scripts: Vec<NamedScript>,
    ) -> (got: (Vec<Outstanding>, Vec<Ready>))
        requires
            old(self).wf(),
        ensures
            final(self).wf(),
            final(self)@.tabs == old(self)@.tabs,
            final(self)@.active == old(self)@.active,
            ({
                let all = gathered(
                    old(self)@,
                    held@,
                    sheets@,
                    pictures@,
                    scripts.deep_view(),
                );
                &&& final(self)@ == all.state
                &&& got.0@ == all.outstanding
                &&& got.1@ == all.ready
            }),
    {
        let ghost shown = pictures@;
        let outstanding = self.request_subresources(Vec::new(), want_sheets(sheets));
        let mut pictures: Vec<PictureTag> = pictures;
        pictures.truncate(IMAGE_LIMIT);
        assert(pictures@ =~= at_most(shown, IMAGE_LIMIT as int));
        let (ready, wanted) = self.sort_pictures(pictures);
        let mut outstanding = self.request_subresources(outstanding, wanted);
        let (adopted, wanted) = adopt_scripts(held, scripts);
        let mut adopted: Vec<Outstanding> = adopted;
        outstanding.append(&mut adopted);
        let outstanding = self.request_subresources(outstanding, wanted);
        (outstanding, ready)
    }

    /// Put the document in the tab at `index`, and show its address if it is the active
    /// one.
    fn show_page(&mut self, index: usize, url: String, site: Option<String>, title: Option<String>)
        requires
            old(self).wf(),
            index < old(self)@.tabs.len(),
        ensures
            final(self).wf(),
            final(self)@ == page_shown(
                old(self)@,
                index as int,
                url@,
                site.deep_view(),
                title.deep_view(),
            ),
            final(self)@.tabs.len() == old(self)@.tabs.len(),
    {
        let id = self.tab_at(index).id;
        let bare = !self.draws_interface();
        let active = self.active_index();
        self.put_page(index, url, site, title);
        self.tell_if(bare, Command::HideScrollbars(id));
        if index == active {
            proof {
                showing_an_address_changes_no_tab(self@);
            }
            self.sync_address();
        }
    }

    /// Whether the browser's own interface is drawn at all.
    pub fn draws_interface(&self) -> (answer: bool)
        ensures
            answer == self@.interface,
    {
        proof {
            reveal(Browser::state);
        }
        self.interface
    }

    /// Put the document in the tab at `index`.
    fn put_page(&mut self, index: usize, url: String, site: Option<String>, title: Option<String>)
        requires
            old(self).wf(),
            index < old(self)@.tabs.len(),
        ensures
            final(self).wf(),
            final(self)@ == old(self)@.with_tab_at(
                index as int,
                showing(
                    old(self)@.tabs[index as int],
                    url@,
                    site.deep_view(),
                    title.deep_view(),
                ),
            ),
    {
        proof {
            reveal(Browser::state);
        }
        let ghost before = self@;
        self.tabs[index].show(url, site, title);
        proof {
            assert(self@.tabs =~= before.tabs.update(index as int, self@.tabs[index as int]));
            changing_a_tab_is_sound(before, index as int, self@.tabs[index as int]);
        }
    }

    /// Have the load in the tab at `index` wait for this.
    fn fill_load(
        &mut self,
        index: usize,
        outstanding: Vec<Outstanding>,
        ready: Vec<Ready>,
        script_order: Vec<u64>,
        runner: bool,
        parse: Option<u64>,
        seen: Vec<u64>,
    )
        requires
            old(self).wf(),
            index < old(self)@.tabs.len(),
        ensures
            final(self).wf(),
            final(self)@ == old(self)@.with_tab_at(
                index as int,
                load_filled(
                    old(self)@.tabs[index as int],
                    outstanding@,
                    ready@,
                    script_order@,
                    runner,
                    parse,
                    seen@,
                ),
            ),
    {
        proof {
            reveal(Browser::state);
        }
        let ghost before = self@;
        self.tabs[index].fill_load(outstanding, ready, script_order, runner, parse, seen);
        proof {
            assert(self@.tabs =~= before.tabs.update(index as int, self@.tabs[index as int]));
            changing_a_tab_is_sound(before, index as int, self@.tabs[index as int]);
        }
    }

    /// Have the load in the tab at `index` wait for more.
    fn grow_load(
        &mut self,
        index: usize,
        outstanding: Vec<Outstanding>,
        ready: Vec<Ready>,
        scripts: Vec<u64>,
        seen: Vec<u64>,
        runner: bool,
        title: Option<String>,
    )
        requires
            old(self).wf(),
            index < old(self)@.tabs.len(),
        ensures
            final(self).wf(),
            final(self)@ == old(self)@.with_tab_at(
                index as int,
                load_grown(
                    old(self)@.tabs[index as int],
                    outstanding@,
                    ready@,
                    scripts@,
                    seen@,
                    runner,
                    title.deep_view(),
                ),
            ),
    {
        proof {
            reveal(Browser::state);
        }
        let ghost before = self@;
        self.tabs[index].grow_load(outstanding, ready, scripts, seen, runner, title);
        proof {
            assert(self@.tabs =~= before.tabs.update(index as int, self@.tabs[index as int]));
            changing_a_tab_is_sound(before, index as int, self@.tabs[index as int]);
        }
    }

    /// Ask for what the document in the tab at `index` names, now that all of it is parsed,
    /// as far as it was not seen to where the parse was stopped.
    pub fn complete_document(&mut self, index: usize, parsed: Parsed)
        requires
            old(self).wf(),
            index < old(self)@.tabs.len(),
        ensures
            final(self).wf(),
            final(self)@ == document_parsed(old(self)@, index as int, parsed),
    {
        let tab = self.tab_at(index);
        match &tab.pending {
            None => {},
            Some(load) => {
                let deferred = defer_scripts(parsed.deferred);
                let scripts = leave_scripts(deferred, &load.script_order);
                let sheets = leave_sheets(parsed.sheets, &load.seen);
                let pictures = leave_pictures(parsed.pictures, &load.seen);
                let order = script_nodes(&scripts);
                let seen = see_elements(&sheets, &pictures);
                let held = self.take_document(index);
                let (outstanding, ready) = self.gather(held, sheets, pictures, scripts);
                self.grow_load(
                    index,
                    outstanding,
                    ready,
                    order,
                    seen,
                    parsed.runner,
                    parsed.title,
                );
            },
        }
    }

    /// A new page names its own backgrounds; what the last one asked for is not an answer
    /// for this one.
    fn forget_backgrounds(&mut self)
        requires
            old(self).wf(),
        ensures
            final(self).wf(),
            final(self)@ == backgrounds_forgotten(old(self)@),
    {
        proof {
            reveal(Browser::state);
        }
        self.extras.background_requests = Vec::new();
        assert(self@.extras.background_requests =~= seq![]);
    }

    /// End the load in the tab at `index`, and hand over what it got.
    fn end_load(&mut self, index: usize) -> (ended: bool)
        requires
            old(self).wf(),
            index < old(self)@.tabs.len(),
        ensures
            final(self).wf(),
            ended == (old(self)@.tabs[index as int].pending is Some),
            final(self)@ == match old(self)@.tabs[index as int].pending {
                None => old(self)@,
                Some(load) => State {
                    finished: old(self)@.finished.push((old(self)@.tabs[index as int].id, load)),
                    ..old(self)@.with_tab_at(
                        index as int,
                        loaded(old(self)@.tabs[index as int], load),
                    )
                },
            },
    {
        proof {
            reveal(Browser::state);
        }
        let ghost before = self@;
        let tab = self.tabs[index].id;
        match self.tabs[index].finish() {
            None => {
                assert(self@.tabs =~= before.tabs);
                false
            },
            Some(load) => {
                self.finished.push(FinishedLoad { tab, load });
                proof {
                    assert(self@.tabs =~= before.tabs.update(index as int, self@.tabs[index as int]));
                    changing_a_tab_is_sound(before, index as int, self@.tabs[index as int]);
                }
                assert(self@.finished =~= before.finished.push((tab, load.deep_view())));
                true
            },
        }
    }

    /// Everything the page asked for has arrived or failed: build it for real.
    pub fn finish_load(&mut self, index: usize)
        requires
            old(self).wf(),
            index < old(self)@.tabs.len(),
        ensures
            final(self).wf(),
            final(self)@ == load_finished(old(self)@, index as int),
            final(self)@.tabs.len() == old(self)@.tabs.len(),
    {
        let bare = !self.draws_interface();
        let tab = self.tab_at(index);
        let id = tab.id;
        let shown = tab.page.is_some();
        let scroll: u32 = match &tab.pending {
            Some(load) => load.restore_scroll,
            None => 0,
        };
        self.forget_backgrounds();
        if self.end_load(index) {
            self.tell_if(shown, Command::SetScroll(id, scroll));
            self.tell_if(shown && bare, Command::HideScrollbars(id));
        }
    }

    /// Build the page in the tab at `index` if nothing it asked for is outstanding.
    pub fn finish_if_settled(&mut self, index: usize)
        requires
            old(self).wf(),
            index < old(self)@.tabs.len(),
        ensures
            final(self).wf(),
            final(self)@ == finished_if_settled(old(self)@, index as int),
            final(self)@.tabs.len() == old(self)@.tabs.len(),
    {
        if self.tab_at(index).settled() {
            self.finish_load(index);
        }
    }

    /// Put a parsed document in the tab at `index`, and ask for what it names.
    ///
    /// The document is shown straight away, before its stylesheets and pictures have
    /// come: a page that is readable now and styled a moment later beats a blank window
    /// for the length of the slowest thing it links to.
    pub fn build_document(
        &mut self,
        index: usize,
        url: String,
        site: Option<String>,
        parsed: Parsed,
    )
        requires
            old(self).wf(),
            index < old(self)@.tabs.len(),
        ensures
            final(self).wf(),
            final(self)@ == document_built(
                old(self)@,
                index as int,
                url@,
                site.deep_view(),
                parsed,
            ),
            final(self)@.tabs.len() == old(self)@.tabs.len(),
    {
        let held = self.take_document(index);
        let stop: Option<u64> = match &parsed.stopped_at {
            Some(tag) => Some(tag.node),
            None => None,
        };
        let deferred = defer_scripts(parsed.deferred);
        let script_order = script_nodes(&deferred);
        let seen = see_elements(&parsed.sheets, &parsed.pictures);
        let scripts = order_scripts(parsed.stopped_at, deferred);
        let (outstanding, ready) = self.gather(held, parsed.sheets, parsed.pictures, scripts);
        self.show_page(index, url, site, parsed.title);
        self.complete_build(index, outstanding, ready, script_order, parsed.runner, stop, seen);
    }

    /// Have the load in the tab at `index` wait for this, note the arrival, and build the
    /// page for real if there is nothing to wait for.
    fn complete_build(
        &mut self,
        index: usize,
        outstanding: Vec<Outstanding>,
        ready: Vec<Ready>,
        script_order: Vec<u64>,
        runner: bool,
        parse: Option<u64>,
        seen: Vec<u64>,
    )
        requires
            old(self).wf(),
            index < old(self)@.tabs.len(),
        ensures
            final(self).wf(),
            final(self)@ == build_completed(
                old(self)@,
                index as int,
                outstanding@,
                ready@,
                script_order@,
                runner,
                parse,
                seen@,
            ),
            final(self)@.tabs.len() == old(self)@.tabs.len(),
    {
        match &self.tab_at(index).pending {
            None => {},
            Some(load) => {
                let record = load.record;
                let previous_url = load.previous_url.clone();
                self.fill_load(index, outstanding, ready, script_order, runner, parse, seen);
                if record {
                    self.record_history(index, &previous_url);
                }
                self.finish_if_settled(index);
            },
        }
    }
}

/// A browser whose load in the tab at `index` waits for this, its arrival noted, and
/// finished where there is nothing to wait for.
pub open spec fn build_completed(
    s: State,
    index: int,
    outstanding: Seq<Outstanding>,
    ready: Seq<Ready>,
    script_order: Seq<u64>,
    runner: bool,
    parse: Option<u64>,
    seen: Seq<u64>,
) -> State {
    match s.tabs[index].pending {
        None => s,
        Some(load) => {
            let waiting = s.with_tab_at(
                index,
                load_filled(s.tabs[index], outstanding, ready, script_order, runner, parse, seen),
            );
            let noted = if load.record {
                history_recorded(waiting, index, load.previous_url)
            } else {
                waiting
            };
            finished_if_settled(noted, index)
        },
    }
}

} // verus!
