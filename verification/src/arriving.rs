//! What happens when something that was asked for comes back.
//!
//! An answer finds its own way: to the face, the background or the element it was
//! fetched for, or to the tab whose load waits for it. One that nobody waits for any
//! more changes nothing.

use vstd::prelude::*;

use crate::address::address_synced;
use crate::asking::{asking_for, Link, Wanted};
use crate::browser::{
    changing_a_tab_is_sound, stores_sound, BackgroundFetch, Browser, Command, Destination,
    ExtrasView, PictureFetch, ResourceKind, State, Surface, Target,
};
use crate::building::{
    at_most, document_built, document_parsed, finished_if_settled, name_script, script_named,
    script_wanted, with_images, Parsed, ScriptTag, SCRIPT_LIMIT,
};
use crate::images::{after_insert, Picture};
use crate::markup::{image_document, image_markup, text_document, text_markup};
use crate::navigation::{
    history_recorded, on_system_page, scroll_remembered, sent_to, submitted, Submission,
};
use crate::strip::{named, place_named, showing_an_address_changes_no_tab};
use crate::surface::activated;
use crate::system::SystemPage;
use crate::tab::{
    copy_text, Outstanding, PendingLoad, PendingResource, PendingView, PictureChoice, Shown, Tab,
    TabId, TabView,
};

verus! {

/// How many navigations a page's script may ask for in a row.
///
/// A script that navigates on every load is a loop, and the only thing that stops one is
/// counting: the reader choosing to go somewhere starts the count again.
pub const SCRIPT_HOP_LIMIT: u8 = 8;

/// What a response turned out to be, from what the server said and from the bytes.
#[derive(Clone, Copy, Debug, PartialEq, Eq, Structural)]
pub enum Sniffed {
    Document,
    Image,
    Other,
}

/// A `<script src>` that a scan of the raw bytes found, before they were parsed.
#[derive(Debug)]
pub struct SourceTag {
    pub src: String,
    pub link: Link,
}

/// A response that is to be kept rather than shown.
#[derive(Debug)]
pub struct Attachment {
    pub filename: String,
    /// What it is called among the downloads, where there was room for it.
    pub recorded: Option<u64>,
}

/// A response that is to be shown.
#[derive(Debug)]
pub struct Document {
    /// The address it came from in the end.
    pub url: String,
    pub site: Option<String>,
    /// The scripts its bytes name, where it was sniffed as a document.
    pub scripts: Option<Vec<SourceTag>>,
    /// What the parse has made of it.
    pub parsed: Parsed,
}

/// What the response to a navigation is.
#[derive(Debug)]
pub enum Arrival {
    Attachment(Attachment),
    Document(Document),
}

/// What the response to a request for something on a page holds.
#[derive(Debug)]
pub struct Resource {
    /// The bytes as text.
    pub text: String,
    /// The bytes as a picture, where they are one.
    pub picture: Option<Picture>,
    /// Whether the bytes were a face that could be registered.
    pub registered: bool,
}

/// What came back for one request.
#[derive(Debug)]
pub enum Fetched {
    Document { id: u64, result: Result<Arrival, String> },
    Resource { id: u64, url: String, result: Result<Resource, String> },
}

/// What an answer did.
#[derive(Clone, Copy, Debug, PartialEq, Eq, Structural)]
pub struct Received {
    /// Whether there is something new to draw.
    pub changed: bool,
    /// The tab whose parse may go on, now that a script has come or will not. Once it has
    /// gone as far as it goes, [`Browser::finish_if_settled`] says whether the load is over.
    pub resume: Option<usize>,
}

/// What to do about a parse that is stopped at a script.
#[derive(Debug)]
pub enum ParseStep {
    /// Nothing: none is stopped, or its script is still coming.
    Rest,
    /// Run this, and go on.
    Supply { node: u64, source: String },
    /// The script will not come, and a fetch that failed must not stop the page for ever:
    /// go on without it.
    Skip { node: u64 },
}

/// How far a parse that went on has got.
#[derive(Debug)]
pub enum ParseState {
    /// It is stopped again, at this script.
    Stopped(ScriptTag),
    /// The last byte is parsed, and this is what the document comes to in all.
    Finished(Parsed),
}

/// Where a page's script asked to go.
#[derive(Debug)]
pub enum ScriptNavigation {
    /// To where it is, again.
    Reload(Target),
    /// Elsewhere, over the entry it is on or after it.
    Url { target: Target, replace: bool },
    /// Where a form it sent points, if the form could be sent.
    Submit(Option<Submission>),
}

/// The markup a response is shown through, or none where its own bytes are parsed.
pub open spec fn markup_for(sniffed: Sniffed, url: Seq<char>, text: Seq<char>) -> Option<Seq<char>> {
    match sniffed {
        Sniffed::Document => None,
        Sniffed::Image => Some(image_markup(url)),
        Sniffed::Other => Some(text_markup(text)),
    }
}

/// The markup a response is shown through, or none where its own bytes are parsed.
///
/// A picture is shown as one and text is shown as text, rather than everything being fed
/// to the parser and rendering as whatever that makes of it.
pub fn document_for(sniffed: Sniffed, url: &str, text: &str) -> (markup: Option<String>)
    ensures
        markup.deep_view() == markup_for(sniffed, url@, text@),
{
    match sniffed {
        Sniffed::Document => None,
        Sniffed::Image => Some(image_document(url)),
        Sniffed::Other => Some(text_document(text)),
    }
}

/// What `outstanding` says the answer to `id` feeds.
pub open spec fn fed_by(outstanding: Seq<Outstanding>, id: u64) -> Seq<PendingResource>
    decreases outstanding.len(),
{
    if outstanding.len() == 0 {
        seq![]
    } else if outstanding.last().id == id {
        fed_by(outstanding.drop_last(), id).push(outstanding.last().resource)
    } else {
        fed_by(outstanding.drop_last(), id)
    }
}

/// What is outstanding once the answer to `id` has come.
pub open spec fn without_request(outstanding: Seq<Outstanding>, id: u64) -> Seq<Outstanding>
    decreases outstanding.len(),
{
    if outstanding.len() == 0 {
        seq![]
    } else if outstanding.last().id == id {
        without_request(outstanding.drop_last(), id)
    } else {
        without_request(outstanding.drop_last(), id).push(outstanding.last())
    }
}

/// Whether a request is among those outstanding.
pub open spec fn is_outstanding(outstanding: Seq<Outstanding>, id: u64) -> bool {
    exists|i: int| 0 <= i < outstanding.len() && (#[trigger] outstanding[i]).id == id
}

/// Whether a tab's load waits for the answer to `id`.
pub open spec fn waits_for(tab: TabView, id: u64) -> bool {
    tab.pending matches Some(load) && (load.document == id || is_outstanding(load.outstanding, id))
}

/// The first tab whose load waits for the answer to `id`, if one does.
pub open spec fn awaiting(tabs: Seq<TabView>, id: u64) -> Option<int>
    decreases tabs.len(),
{
    if tabs.len() == 0 {
        None
    } else {
        match awaiting(tabs.drop_last(), id) {
            Some(index) => Some(index),
            None => if waits_for(tabs.last(), id) {
                Some(tabs.len() - 1)
            } else {
                None
            },
        }
    }
}

/// Whether one of `wanted` is for a picture.
pub open spec fn wants_picture(wanted: Seq<PendingResource>) -> bool {
    exists|i: int| 0 <= i < wanted.len() && (#[trigger] wanted[i]) is Image
}

/// Whether one of `wanted` is for a script on the page.
pub open spec fn wants_script(wanted: Seq<PendingResource>) -> bool {
    exists|i: int| 0 <= i < wanted.len() && (#[trigger] wanted[i]) is Script
}

/// A load with the bytes of `got` where one thing wanted them.
pub open spec fn fed_one(load: PendingView, wanted: PendingResource, got: Resource) -> PendingView {
    match wanted {
        PendingResource::Stylesheet(node) => PendingView {
            sheets: load.sheets.insert(node, got.text),
            ..load
        },
        PendingResource::Script(node) => PendingView {
            scripts: load.scripts.insert(node, got.text),
            ..load
        },
        PendingResource::ScriptSource(_) => load,
        PendingResource::Image(node, src, density) => match got.picture {
            Some(picture) => PendingView {
                images: load.images.insert(node, Shown { picture, density }),
                picture_sources: load.picture_sources.insert(
                    node,
                    PictureChoice { src, density },
                ),
                ..load
            },
            None => load,
        },
    }
}

/// A load with the bytes of `got` wherever they were wanted.
pub open spec fn fed(load: PendingView, wanted: Seq<PendingResource>, got: Resource) -> PendingView
    decreases wanted.len(),
{
    if wanted.len() == 0 {
        load
    } else {
        fed_one(fed(load, wanted.drop_last(), got), wanted.last(), got)
    }
}

/// A load that no longer waits for the answer to `id`.
pub open spec fn answered(load: PendingView, id: u64) -> PendingView {
    PendingView { outstanding: without_request(load.outstanding, id), ..load }
}

/// A tab whose load no longer waits for the answer to `id`.
pub open spec fn answered_tab(tab: TabView, id: u64) -> TabView {
    TabView {
        pending: match tab.pending {
            Some(load) => Some(answered(load, id)),
            None => None,
        },
        ..tab
    }
}

/// A tab whose load has the bytes of `got` wherever they were wanted.
pub open spec fn fed_tab(tab: TabView, wanted: Seq<PendingResource>, got: Resource) -> TabView {
    TabView {
        pending: match tab.pending {
            Some(load) => Some(fed(load, wanted, got)),
            None => None,
        },
        ..tab
    }
}

/// What a tab's load wants of the answer to `id`.
pub open spec fn wanted_of(tab: TabView, id: u64) -> Seq<PendingResource> {
    match tab.pending {
        Some(load) => fed_by(load.outstanding, id),
        None => seq![],
    }
}

/// A browser that keeps a picture it has decoded, if it has.
pub open spec fn picture_kept(s: State, url: Seq<char>, picture: Option<Picture>) -> State {
    match picture {
        Some(picture) => with_images(s, after_insert(s.extras.images, url, picture)),
        None => s,
    }
}

/// The picture an answer holds, if it holds one.
pub open spec fn picture_of(result: Result<Resource, String>) -> Option<Picture> {
    match result {
        Ok(got) => got.picture,
        Err(_) => None,
    }
}

/// What an answer came to.
pub struct Receipt {
    pub state: State,
    pub changed: bool,
    pub resume: Option<int>,
}

/// Whether `got` and a browser that is now at `state` are what an answer came to.
pub open spec fn is_receipt(got: Received, state: State, receipt: Receipt) -> bool {
    &&& state == receipt.state
    &&& got.changed == receipt.changed
    &&& match got.resume {
        Some(index) => receipt.resume == Some(index as int),
        None => receipt.resume is None,
    }
}

/// A browser whose tab at `index` has been answered something on its page.
pub open spec fn resource_received(
    s: State,
    index: int,
    id: u64,
    url: Seq<char>,
    result: Result<Resource, String>,
) -> Receipt {
    let wanted = wanted_of(s.tabs[index], id);
    if wanted.len() == 0 {
        Receipt { state: s, changed: true, resume: None }
    } else {
        let taken = s.with_tab_at(index, answered_tab(s.tabs[index], id));
        match result {
            Err(_) => settled_unless_script(taken, index, wanted),
            Ok(got) => settled_unless_script(
                resource_given(taken, index, url, wanted, got),
                index,
                wanted,
            ),
        }
    }
}

/// What an answer comes to once what it holds has been given out: a parse may be waiting
/// for a script, whether it came or failed to, and otherwise the load may be over.
pub open spec fn settled_unless_script(
    s: State,
    index: int,
    wanted: Seq<PendingResource>,
) -> Receipt {
    if wants_script(wanted) {
        Receipt { state: s, changed: true, resume: Some(index) }
    } else {
        Receipt { state: finished_if_settled(s, index), changed: true, resume: None }
    }
}

/// A browser whose tab at `index` has the bytes that came for it.
pub open spec fn resource_given(
    s: State,
    index: int,
    url: Seq<char>,
    wanted: Seq<PendingResource>,
    got: Resource,
) -> State {
    let kept = if wants_picture(wanted) {
        picture_kept(s, url, got.picture)
    } else {
        s
    };
    kept.with_tab_at(index, fed_tab(kept.tabs[index], wanted, got))
}

/// A tab whose navigation failed.
pub open spec fn failed_tab(tab: TabView, error: Seq<char>) -> TabView {
    TabView { title: "Failed"@, page: None, error: Some(error), pending: None, ..tab }
}

/// Whether a browser writes an attachment to disk without being asked.
pub open spec fn saves_by_itself(s: State, attachment: Attachment) -> bool {
    &&& attachment.recorded is Some
    &&& !s.settings.ask_where_to_save
    &&& s.settings.download_directory is Some
}

/// A browser that keeps an attachment.
pub open spec fn attachment_saved(s: State, attachment: Attachment) -> State {
    if saves_by_itself(s, attachment) {
        s.telling(
            Command::Save(
                attachment.recorded->0,
                Destination::Into {
                    directory: s.settings.download_directory->0,
                    filename: attachment.filename,
                },
            ),
        )
    } else {
        s
    }
}

/// Whether a tab's load adds an entry to its history.
pub open spec fn load_records(tab: TabView) -> bool {
    tab.pending matches Some(load) && load.record
}

/// Where a tab was before its load.
pub open spec fn load_left(tab: TabView) -> Seq<char> {
    match tab.pending {
        Some(load) => load.previous_url,
        None => seq![],
    }
}

/// A browser whose navigation in the tab at `index` turned out to be a download: the tab
/// shows the page that names the result.
pub open spec fn attachment_received(s: State, index: int, attachment: Attachment) -> State {
    let tab = s.tabs[index];
    let saving = attachment_saved(s, attachment);
    let there = saving.with_tab_at(index, on_system_page(tab, SystemPage::Downloads));
    let noted = if load_records(tab) {
        history_recorded(there, index, load_left(tab))
    } else {
        there
    };
    if index == s.active {
        activated(address_synced(noted), Surface::System)
    } else {
        noted
    }
}

/// What a scan of a document's bytes wants.
pub open spec fn source_wanted(tag: SourceTag) -> Wanted {
    Wanted {
        link: tag.link,
        resource: PendingResource::ScriptSource(tag.src),
        kind: ResourceKind::Script,
    }
}

/// What a scan of a document's bytes wants, as far as the limit goes.
pub open spec fn sources_wanted(tags: Seq<SourceTag>) -> Seq<Wanted> {
    at_most(tags, SCRIPT_LIMIT as int).map_values(|tag: SourceTag| source_wanted(tag))
}

/// A tab whose load waits for `outstanding`.
pub open spec fn waiting_on(tab: TabView, outstanding: Seq<Outstanding>) -> TabView {
    TabView {
        pending: match tab.pending {
            Some(load) => Some(PendingView { outstanding, ..load }),
            None => None,
        },
        ..tab
    }
}

/// A browser that has asked for every script a document's bytes name.
pub open spec fn scripts_prefetched(s: State, index: int, tags: Seq<SourceTag>) -> State {
    let asking = asking_for(s, seq![], sources_wanted(tags));
    if asking.outstanding.len() == 0 {
        asking.state
    } else {
        asking.state.with_tab_at(index, waiting_on(asking.state.tabs[index], asking.outstanding))
    }
}

/// A browser whose tab at `index` was given a document.
pub open spec fn document_shown(s: State, index: int, document: Document) -> State {
    let ready = match document.scripts {
        Some(tags) => scripts_prefetched(s, index, tags@),
        None => s,
    };
    document_built(ready, index, document.url@, document.site.deep_view(), document.parsed)
}

/// A browser whose navigation in the tab at `index` was answered.
pub open spec fn document_received(s: State, index: int, result: Result<Arrival, String>) -> State {
    match result {
        Err(error) => s.with_tab_at(index, failed_tab(s.tabs[index], error@)),
        Ok(Arrival::Attachment(attachment)) => attachment_received(s, index, attachment),
        Ok(Arrival::Document(document)) => document_shown(s, index, document),
    }
}

/// A browser that no longer waits for a face under `id`.
pub open spec fn font_taken(s: State, id: u64) -> State {
    State {
        extras: ExtrasView { font_fetches: s.extras.font_fetches.remove(id), ..s.extras },
        ..s
    }
}

/// A browser that no longer waits for a background under `id`.
pub open spec fn background_taken(s: State, id: u64) -> State {
    State {
        extras: ExtrasView { background_fetches: s.extras.background_fetches.remove(id), ..s.extras },
        ..s
    }
}

/// A browser that no longer waits for an element's picture under `id`.
pub open spec fn picture_taken(s: State, id: u64) -> State {
    State {
        extras: ExtrasView { picture_fetches: s.extras.picture_fetches.remove(id), ..s.extras },
        ..s
    }
}

/// A browser that has told the pages of its first `count` tabs that a face has come.
pub open spec fn fonts_told(s: State, count: nat) -> State
    decreases count,
{
    if count == 0 {
        s
    } else {
        fonts_told(s, (count - 1) as nat).telling_if(
            s.tabs[count - 1].page is Some,
            Command::FontArrived(s.tabs[count - 1].id),
        )
    }
}

/// Whether a tab named `id` is still open, and has a page to give something to.
pub open spec fn has_page(s: State, id: TabId) -> bool {
    named(s.tabs, id) && s.tabs[place_named(s.tabs, id)].page is Some
}

/// A browser given the background it asked for: the page in the tab that it was asked for
/// gets it, wherever that tab is by now, and no other.
pub open spec fn background_received(
    s: State,
    url: Seq<char>,
    fetch: BackgroundFetch,
    picture: Option<Picture>,
) -> State {
    let kept = picture_kept(s, url, picture);
    if picture is Some && has_page(s, fetch.tab) {
        kept.telling(Command::SetPicture(fetch.tab, fetch.url, picture->0))
    } else {
        kept
    }
}

/// A browser given the picture an element chose again.
pub open spec fn picture_received(
    s: State,
    url: Seq<char>,
    fetch: PictureFetch,
    picture: Option<Picture>,
) -> State {
    let kept = picture_kept(s, url, picture);
    if picture is Some && has_page(s, fetch.tab) {
        kept.telling(
            Command::SetImage(fetch.tab, fetch.node, fetch.src, picture->0, fetch.density),
        )
    } else {
        kept
    }
}

/// What the answer to a request comes to.
pub open spec fn received(s: State, fetched: Fetched) -> Receipt {
    match fetched {
        Fetched::Document { id, result } => match awaiting(s.tabs, id) {
            None => Receipt { state: s, changed: false, resume: None },
            Some(index) => {
                let after = document_received(s, index, result);
                Receipt {
                    state: after,
                    changed: true,
                    resume: if parse_step(after.tabs[index]) is Rest {
                        None
                    } else {
                        Some(index)
                    },
                }
            },
        },
        Fetched::Resource { id, url, result } => {
            if s.extras.font_fetches.contains_key(id) {
                let taken = font_taken(s, id);
                let registered = result matches Ok(got) && got.registered;
                Receipt {
                    state: if registered {
                        fonts_told(taken, s.tabs.len())
                    } else {
                        taken
                    },
                    changed: registered,
                    resume: None,
                }
            } else {
                resource_answered(s, id, url@, result)
            }
        },
    }
}

/// What the answer to a request that no face waits for comes to.
pub open spec fn resource_answered(
    s: State,
    id: u64,
    url: Seq<char>,
    result: Result<Resource, String>,
) -> Receipt {
    if s.extras.background_fetches.contains_key(id) {
        Receipt {
            state: background_received(
                background_taken(s, id),
                url,
                s.extras.background_fetches[id],
                picture_of(result),
            ),
            changed: picture_of(result) is Some,
            resume: None,
        }
    } else if s.extras.picture_fetches.contains_key(id) {
        Receipt {
            state: picture_received(
                picture_taken(s, id),
                url,
                s.extras.picture_fetches[id],
                picture_of(result),
            ),
            changed: picture_of(result) is Some,
            resume: None,
        }
    } else {
        match awaiting(s.tabs, id) {
            None => Receipt { state: s, changed: false, resume: None },
            Some(index) => resource_received(s, index, id, url, result),
        }
    }
}

/// Whether the script of `node` is still outstanding.
pub open spec fn awaits_script(outstanding: Seq<Outstanding>, node: u64) -> bool {
    exists|i: int|
        0 <= i < outstanding.len() && (#[trigger] outstanding[i]).resource
            == PendingResource::Script(node)
}

/// What to do about the parse of a load.
pub open spec fn step_of(load: PendingView) -> ParseStep {
    match load.parse {
        None => ParseStep::Rest,
        Some(node) => if load.scripts.contains_key(node) {
            ParseStep::Supply { node, source: load.scripts[node] }
        } else if awaits_script(load.outstanding, node) {
            ParseStep::Rest
        } else {
            ParseStep::Skip { node }
        },
    }
}

/// What to do about the parse of a tab's load.
pub open spec fn parse_step(tab: TabView) -> ParseStep {
    match tab.pending {
        Some(load) => step_of(load),
        None => ParseStep::Rest,
    }
}

/// A tab whose load's parse is at `parse`.
pub open spec fn parsing_at(tab: TabView, parse: Option<u64>) -> TabView {
    TabView {
        pending: match tab.pending {
            Some(load) => Some(PendingView { parse, ..load }),
            None => None,
        },
        ..tab
    }
}

/// A tab whose parse is under way, where there is a step for it to take.
pub open spec fn parse_taken(tab: TabView) -> TabView {
    if parse_step(tab) is Rest {
        tab
    } else {
        parsing_at(tab, None)
    }
}

/// A tab whose load waits for `more` as well.
pub open spec fn waiting_for_more(tab: TabView, more: Seq<Outstanding>) -> TabView {
    TabView {
        pending: match tab.pending {
            Some(load) => Some(PendingView { outstanding: load.outstanding + more, ..load }),
            None => None,
        },
        ..tab
    }
}

/// What a stopped parse wants.
pub open spec fn stop_wanted(tag: ScriptTag) -> Seq<Wanted> {
    match script_named(tag) {
        Some(script) => seq![script_wanted(script)],
        None => seq![],
    }
}

/// A browser whose tab at `index` has parsed further.
pub open spec fn parse_stepped(s: State, index: int, parse: ParseState) -> State {
    match parse {
        ParseState::Stopped(tag) => {
            let asking = asking_for(s, seq![], stop_wanted(tag));
            let tab = asking.state.tabs[index];
            asking.state.with_tab_at(
                index,
                parsing_at(waiting_for_more(tab, asking.outstanding), Some(tag.node)),
            )
        },
        ParseState::Finished(parsed) => document_parsed(s, index, parsed),
    }
}

/// Whether what is waited for is a stylesheet for this window; those of `elsewhere` are
/// written for another medium.
pub open spec fn is_style_here(held: Outstanding, elsewhere: Seq<u64>) -> bool {
    held.resource matches PendingResource::Stylesheet(node) && !elsewhere.contains(node)
}

/// Whether a stylesheet for this window is outstanding.
pub open spec fn awaits_style(outstanding: Seq<Outstanding>, elsewhere: Seq<u64>) -> bool {
    exists|i: int|
        0 <= i < outstanding.len() && is_style_here(#[trigger] outstanding[i], elsewhere)
}

/// Whether a tab waits for a stylesheet that it cannot be drawn without.
pub open spec fn style_blocked(tab: TabView, elsewhere: Seq<u64>) -> bool {
    tab.pending matches Some(load) && awaits_style(load.outstanding, elsewhere)
}

/// The scripts of a finished load that came, in the order the document names them.
pub open spec fn scripts_that_came(order: Seq<u64>, scripts: Map<u64, String>) -> Seq<u64>
    decreases order.len(),
{
    if order.len() == 0 {
        seq![]
    } else if scripts.contains_key(order.last()) {
        scripts_that_came(order.drop_last(), scripts).push(order.last())
    } else {
        scripts_that_came(order.drop_last(), scripts)
    }
}

/// A browser that has let a page's script navigate once more.
pub open spec fn hopped(s: State) -> State {
    State { script_hops: (s.script_hops + 1) as u8, ..s }
}

/// A browser whose tab at `index` has a script that asked to go somewhere.
pub open spec fn script_navigated(s: State, index: int, wish: ScriptNavigation) -> State {
    if index != s.active || s.script_hops >= SCRIPT_HOP_LIMIT {
        s
    } else {
        let counted = hopped(s);
        match wish {
            ScriptNavigation::Reload(target) => sent_to(counted, target, false, false, 0, None),
            ScriptNavigation::Url { target, replace } => sent_to(
                scroll_remembered(counted),
                target,
                false,
                !replace,
                0,
                None,
            ),
            ScriptNavigation::Submit(Some(form)) => submitted(counted, form),
            ScriptNavigation::Submit(None) => counted,
        }
    }
}

fn find_outstanding(outstanding: &Vec<Outstanding>, id: u64) -> (found: bool)
    ensures
        found == is_outstanding(outstanding@, id),
{
    let mut at: usize = 0;
    while at < outstanding.len()
        invariant
            at <= outstanding.len(),
            forall|i: int| 0 <= i < at ==> (#[trigger] outstanding@[i]).id != id,
        decreases outstanding.len() - at,
    {
        if outstanding[at].id == id {
            assert(outstanding@[at as int].id == id);
            return true;
        }
        at = at + 1;
    }
    false
}

/// Part what the answer to `id` feeds from what is still outstanding after it.
fn part(outstanding: Vec<Outstanding>, id: u64) -> (parted: (
    Vec<PendingResource>,
    Vec<Outstanding>,
))
    ensures
        parted.0@ == fed_by(outstanding@, id),
        parted.1@ == without_request(outstanding@, id),
{
    let ghost all = outstanding@;
    let count: usize = outstanding.len();
    let mut left: Vec<Outstanding> = outstanding;
    let mut wanted: Vec<PendingResource> = Vec::new();
    let mut rest: Vec<Outstanding> = Vec::new();
    let mut done: usize = 0;
    proof {
        assert(all.skip(0) =~= all);
        assert(all.take(0) =~= seq![]);
    }
    while done < count
        invariant
            done <= count,
            count == all.len(),
            left@ == all.skip(done as int),
            wanted@ == fed_by(all.take(done as int), id),
            rest@ == without_request(all.take(done as int), id),
        decreases count - done,
    {
        let one = left.remove(0);
        proof {
            assert(one == all[done as int]);
            assert(left@ =~= all.skip(done + 1));
            let longer = all.take(done + 1);
            assert(longer.drop_last() =~= all.take(done as int));
            assert(longer.last() == one);
        }
        if one.id == id {
            wanted.push(one.resource);
        } else {
            rest.push(one);
        }
        done = done + 1;
    }
    assert(all.take(count as int) =~= all);
    (wanted, rest)
}

fn find_picture_wanted(wanted: &Vec<PendingResource>) -> (found: bool)
    ensures
        found == wants_picture(wanted@),
{
    let mut at: usize = 0;
    while at < wanted.len()
        invariant
            at <= wanted.len(),
            forall|i: int| 0 <= i < at ==> !((#[trigger] wanted@[i]) is Image),
        decreases wanted.len() - at,
    {
        if let PendingResource::Image(_, _, _) = &wanted[at] {
            assert(wanted@[at as int] is Image);
            return true;
        }
        at = at + 1;
    }
    false
}

fn find_script_wanted(wanted: &Vec<PendingResource>) -> (found: bool)
    ensures
        found == wants_script(wanted@),
{
    let mut at: usize = 0;
    while at < wanted.len()
        invariant
            at <= wanted.len(),
            forall|i: int| 0 <= i < at ==> !((#[trigger] wanted@[i]) is Script),
        decreases wanted.len() - at,
    {
        if let PendingResource::Script(_) = &wanted[at] {
            assert(wanted@[at as int] is Script);
            return true;
        }
        at = at + 1;
    }
    false
}

/// The scripts of a finished load that came, in the order the document names them.
pub fn scripts_to_run(load: &PendingLoad) -> (nodes: Vec<u64>)
    ensures
        nodes@ == scripts_that_came(load.deep_view().script_order, load.deep_view().scripts),
{
    let ghost order = load.script_order@;
    let ghost scripts = load.scripts@;
    let mut nodes: Vec<u64> = Vec::new();
    let mut at: usize = 0;
    assert(order.take(0) =~= seq![]);
    while at < load.script_order.len()
        invariant
            at <= order.len(),
            order == load.script_order@,
            scripts == load.scripts@,
            nodes@ == scripts_that_came(order.take(at as int), scripts),
        decreases order.len() - at,
    {
        proof {
            let longer = order.take(at + 1);
            assert(longer.drop_last() =~= order.take(at as int));
            assert(longer.last() == order[at as int]);
        }
        let node: u64 = load.script_order[at];
        if load.scripts.contains_key(&node) {
            nodes.push(node);
        }
        at = at + 1;
    }
    assert(order.take(order.len() as int) =~= order);
    nodes
}

impl PendingLoad {
    /// Give one thing that was wanted its bytes.
    fn feed_one(&mut self, wanted: PendingResource, got: &Resource)
        ensures
            final(self).deep_view() == fed_one(old(self).deep_view(), wanted, *got),
    {
        match wanted {
            PendingResource::Stylesheet(node) => {
                let _ = self.sheets.insert(node, got.text.clone());
            },
            PendingResource::Script(node) => {
                let _ = self.scripts.insert(node, got.text.clone());
            },
            PendingResource::ScriptSource(_) => {},
            PendingResource::Image(node, src, density) => match got.picture {
                Some(picture) => {
                    let _ = self.images.insert(node, Shown { picture, density });
                    let _ = self.picture_sources.insert(node, PictureChoice { src, density });
                },
                None => {},
            },
        }
    }

    /// Give everything that was wanted the bytes that came for it.
    fn feed(&mut self, wanted: Vec<PendingResource>, got: &Resource)
        ensures
            final(self).deep_view() == fed(old(self).deep_view(), wanted@, *got),
    {
        let ghost before = self.deep_view();
        let ghost all = wanted@;
        let count: usize = wanted.len();
        let mut left: Vec<PendingResource> = wanted;
        let mut done: usize = 0;
        proof {
            assert(all.skip(0) =~= all);
            assert(all.take(0) =~= seq![]);
        }
        while done < count
            invariant
                done <= count,
                count == all.len(),
                left@ == all.skip(done as int),
                self.deep_view() == fed(before, all.take(done as int), *got),
            decreases count - done,
        {
            let one = left.remove(0);
            proof {
                assert(one == all[done as int]);
                assert(left@ =~= all.skip(done + 1));
                let longer = all.take(done + 1);
                assert(longer.drop_last() =~= all.take(done as int));
                assert(longer.last() == one);
            }
            self.feed_one(one, got);
            done = done + 1;
        }
        assert(all.take(count as int) =~= all);
    }

    /// Whether the script of `node` is still outstanding.
    fn awaits_script(&self, node: u64) -> (answer: bool)
        ensures
            answer == awaits_script(self.deep_view().outstanding, node),
    {
        let mut at: usize = 0;
        while at < self.outstanding.len()
            invariant
                at <= self.outstanding.len(),
                forall|i: int|
                    0 <= i < at ==> (#[trigger] self.outstanding@[i]).resource
                        != PendingResource::Script(node),
            decreases self.outstanding.len() - at,
        {
            if let PendingResource::Script(waiting) = &self.outstanding[at].resource {
                if *waiting == node {
                    assert(self.outstanding@[at as int].resource == PendingResource::Script(node));
                    return true;
                }
            }
            at = at + 1;
        }
        false
    }

    /// What to do about the parse.
    fn next_step(&self) -> (step: ParseStep)
        ensures
            step == step_of(self.deep_view()),
    {
        match self.parse {
            None => ParseStep::Rest,
            Some(node) => match self.scripts.get(&node) {
                Some(source) => ParseStep::Supply { node, source: source.clone() },
                None => if self.awaits_script(node) {
                    ParseStep::Rest
                } else {
                    ParseStep::Skip { node }
                },
            },
        }
    }

    /// Whether a stylesheet for this window is outstanding.
    fn awaits_style(&self, elsewhere: &Vec<u64>) -> (answer: bool)
        ensures
            answer == awaits_style(self.deep_view().outstanding, elsewhere@),
    {
        let mut at: usize = 0;
        while at < self.outstanding.len()
            invariant
                at <= self.outstanding.len(),
                forall|i: int|
                    0 <= i < at ==> !is_style_here(#[trigger] self.outstanding@[i], elsewhere@),
            decreases self.outstanding.len() - at,
        {
            if let PendingResource::Stylesheet(node) = &self.outstanding[at].resource {
                if !among(elsewhere, *node) {
                    assert(is_style_here(self.outstanding@[at as int], elsewhere@));
                    return true;
                }
            }
            at = at + 1;
        }
        false
    }
}

/// Whether a node is among `nodes`.
pub(crate) fn among(nodes: &Vec<u64>, node: u64) -> (answer: bool)
    ensures
        answer == nodes@.contains(node),
{
    let mut at: usize = 0;
    while at < nodes.len()
        invariant
            at <= nodes.len(),
            forall|i: int| 0 <= i < at ==> nodes@[i] != node,
        decreases nodes.len() - at,
    {
        if nodes[at] == node {
            assert(nodes@[at as int] == node);
            return true;
        }
        at = at + 1;
    }
    false
}

impl Tab {
    /// Whether the load waits for the answer to `id`.
    fn waits_for(&self, id: u64) -> (answer: bool)
        ensures
            answer == waits_for(self@, id),
    {
        match &self.pending {
            Some(load) => load.document == id || find_outstanding(&load.outstanding, id),
            None => false,
        }
    }

    /// Take what the load wants of the answer to `id` out of what is outstanding.
    fn take_wanted(&mut self, id: u64) -> (wanted: Vec<PendingResource>)
        ensures
            wanted@ == wanted_of(old(self)@, id),
            final(self)@ == answered_tab(old(self)@, id),
    {
        match self.pending.take() {
            None => Vec::new(),
            Some(load) => {
                let mut load = load;
                let mut outstanding: Vec<Outstanding> = Vec::new();
                std::mem::swap(&mut outstanding, &mut load.outstanding);
                let (wanted, rest) = part(outstanding, id);
                load.outstanding = rest;
                self.pending = Some(load);
                wanted
            },
        }
    }

    /// Give the load the bytes that came for it.
    fn feed(&mut self, wanted: Vec<PendingResource>, got: &Resource)
        ensures
            final(self)@ == fed_tab(old(self)@, wanted@, *got),
    {
        match self.pending.take() {
            None => {},
            Some(load) => {
                let mut load = load;
                load.feed(wanted, got);
                self.pending = Some(load);
            },
        }
    }

    /// Give up: the navigation failed.
    fn fail(&mut self, error: String)
        ensures
            final(self)@ == failed_tab(old(self)@, error@),
    {
        self.title = "Failed".to_owned();
        self.page = None;
        self.error = Some(error);
        self.pending = None;
    }

    /// Have the load wait for `outstanding`.
    fn wait_on(&mut self, outstanding: Vec<Outstanding>)
        ensures
            final(self)@ == waiting_on(old(self)@, outstanding@),
    {
        match self.pending.take() {
            None => {},
            Some(load) => {
                let mut load = load;
                load.outstanding = outstanding;
                self.pending = Some(load);
            },
        }
    }

    /// Have the load wait for `more` as well, its parse stopped at `node`.
    fn stop_at(&mut self, more: Vec<Outstanding>, node: u64)
        ensures
            final(self)@ == parsing_at(waiting_for_more(old(self)@, more@), Some(node)),
    {
        match self.pending.take() {
            None => {},
            Some(load) => {
                let mut load = load;
                let mut more: Vec<Outstanding> = more;
                load.outstanding.append(&mut more);
                load.parse = Some(node);
                self.pending = Some(load);
            },
        }
    }

    /// Take the step the parse is due, if it is due one.
    fn take_step(&mut self) -> (step: ParseStep)
        ensures
            step == parse_step(old(self)@),
            final(self)@ == parse_taken(old(self)@),
    {
        match self.pending.take() {
            None => ParseStep::Rest,
            Some(load) => {
                let mut load = load;
                let step = load.next_step();
                match &step {
                    ParseStep::Rest => {},
                    ParseStep::Supply { .. } => {
                        load.parse = None;
                    },
                    ParseStep::Skip { .. } => {
                        load.parse = None;
                    },
                }
                self.pending = Some(load);
                step
            },
        }
    }
}

impl Browser {
    /// The first tab whose load waits for the answer to `id`, if one does.
    pub fn awaiting(&self, id: u64) -> (found: Option<usize>)
        requires
            self.wf(),
        ensures
            match found {
                Some(index) => index < self@.tabs.len() && awaiting(self@.tabs, id) == Some(
                    index as int,
                ),
                None => awaiting(self@.tabs, id) is None,
            },
    {
        let ghost tabs = self@.tabs;
        let count: usize = self.tab_count();
        let mut at: usize = 0;
        assert(tabs.take(0) =~= seq![]);
        while at < count
            invariant
                at <= count,
                self.wf(),
                tabs == self@.tabs,
                count == tabs.len(),
                awaiting(tabs.take(at as int), id) is None,
            decreases count - at,
        {
            proof {
                let longer = tabs.take(at + 1);
                assert(longer.drop_last() =~= tabs.take(at as int));
                assert(longer.last() == tabs[at as int]);
            }
            if self.tab_at(at).waits_for(id) {
                proof {
                    awaiting_is_stable(tabs, id, at + 1);
                }
                return Some(at);
            }
            at = at + 1;
        }
        assert(tabs.take(count as int) =~= tabs);
        None
    }

    /// Whether a face, a background or an element's picture was asked for under `id`.
    fn asked_apart(&self, id: u64) -> (apart: (bool, bool, bool))
        ensures
            apart.0 == self@.extras.font_fetches.contains_key(id),
            apart.1 == self@.extras.background_fetches.contains_key(id),
            apart.2 == self@.extras.picture_fetches.contains_key(id),
    {
        proof {
            reveal(Browser::state);
        }
        (
            self.extras.font_fetches.contains_key(&id),
            self.extras.background_fetches.contains_key(&id),
            self.extras.picture_fetches.contains_key(&id),
        )
    }

    /// Nothing waits for the face asked for under `id` any more.
    fn take_font(&mut self, id: u64)
        requires
            old(self).wf(),
        ensures
            final(self).wf(),
            final(self)@ == font_taken(old(self)@, id),
    {
        proof {
            reveal(Browser::state);
        }
        let ghost before = self@.extras.font_fetches;
        let _ = self.extras.font_fetches.remove(&id);
        assert(self@.extras.font_fetches =~= before.remove(id));
    }

    /// The background that was asked for under `id`; nothing waits for it any more.
    fn take_background(&mut self, id: u64) -> (fetch: Option<BackgroundFetch>)
        requires
            old(self).wf(),
            old(self)@.extras.background_fetches.contains_key(id),
        ensures
            final(self).wf(),
            final(self)@ == background_taken(old(self)@, id),
            fetch == Some(old(self)@.extras.background_fetches[id]),
    {
        proof {
            reveal(Browser::state);
        }
        let ghost before = self@.extras.background_fetches;
        let fetch = self.extras.background_fetches.remove(&id);
        assert(self@.extras.background_fetches =~= before.remove(id));
        fetch
    }

    /// The element's picture that was asked for under `id`; nothing waits for it any more.
    fn take_picture(&mut self, id: u64) -> (fetch: Option<PictureFetch>)
        requires
            old(self).wf(),
            old(self)@.extras.picture_fetches.contains_key(id),
        ensures
            final(self).wf(),
            final(self)@ == picture_taken(old(self)@, id),
            fetch == Some(old(self)@.extras.picture_fetches[id]),
    {
        proof {
            reveal(Browser::state);
        }
        let ghost before = self@.extras.picture_fetches;
        let fetch = self.extras.picture_fetches.remove(&id);
        assert(self@.extras.picture_fetches =~= before.remove(id));
        fetch
    }

    /// Keep a picture that was decoded, under the address it came from.
    pub fn keep_picture(&mut self, url: String, picture: Option<Picture>)
        requires
            old(self).wf(),
        ensures
            final(self).wf(),
            final(self)@ == picture_kept(old(self)@, url@, picture),
    {
        proof {
            reveal(Browser::state);
            reveal(stores_sound);
        }
        match picture {
            Some(picture) => self.extras.images.insert(url, picture),
            None => {},
        }
    }

    /// Tell every page that a face has come.
    fn tell_fonts(&mut self)
        requires
            old(self).wf(),
        ensures
            final(self).wf(),
            final(self)@ == fonts_told(old(self)@, old(self)@.tabs.len()),
    {
        let ghost before = self@;
        let count: usize = self.tab_count();
        let mut at: usize = 0;
        while at < count
            invariant
                at <= count,
                self.wf(),
                count == before.tabs.len(),
                self@.tabs == before.tabs,
                self@ == fonts_told(before, at as nat),
            decreases count - at,
        {
            let tab = self.tab_at(at);
            let id = tab.id;
            let shown = tab.page.is_some();
            self.tell_if(shown, Command::FontArrived(id));
            at = at + 1;
        }
    }

    /// Whether a tab named `id` is still open, and has a page to give something to.
    fn has_page(&self, id: TabId) -> (answer: bool)
        requires
            self.wf(),
        ensures
            answer == has_page(self@, id),
    {
        match self.tab_index(id) {
            Some(at) => self.tab_at(at).page.is_some(),
            None => false,
        }
    }

    /// A background came.
    fn receive_background(&mut self, url: String, fetch: BackgroundFetch, picture: Option<Picture>)
        requires
            old(self).wf(),
        ensures
            final(self).wf(),
            final(self)@ == background_received(old(self)@, url@, fetch, picture),
    {
        let shown = self.has_page(fetch.tab);
        self.keep_picture(url, picture);
        match picture {
            Some(picture) => if shown {
                self.tell(Command::SetPicture(fetch.tab, fetch.url, picture));
            },
            None => {},
        }
    }

    /// A picture that an element chose again came.
    fn receive_picture(&mut self, url: String, fetch: PictureFetch, picture: Option<Picture>)
        requires
            old(self).wf(),
        ensures
            final(self).wf(),
            final(self)@ == picture_received(old(self)@, url@, fetch, picture),
    {
        let shown = self.has_page(fetch.tab);
        self.keep_picture(url, picture);
        match picture {
            Some(picture) => if shown {
                self.tell(
                    Command::SetImage(fetch.tab, fetch.node, fetch.src, picture, fetch.density),
                );
            },
            None => {},
        }
    }

    /// Take what the tab at `index` wants of the answer to `id`.
    fn take_wanted(&mut self, index: usize, id: u64) -> (wanted: Vec<PendingResource>)
        requires
            old(self).wf(),
            index < old(self)@.tabs.len(),
        ensures
            final(self).wf(),
            wanted@ == wanted_of(old(self)@.tabs[index as int], id),
            final(self)@ == old(self)@.with_tab_at(
                index as int,
                answered_tab(old(self)@.tabs[index as int], id),
            ),
    {
        proof {
            reveal(Browser::state);
        }
        let ghost before = self@;
        let wanted = self.tabs[index].take_wanted(id);
        proof {
            assert(self@.tabs =~= before.tabs.update(index as int, self@.tabs[index as int]));
            changing_a_tab_is_sound(before, index as int, self@.tabs[index as int]);
        }
        wanted
    }

    /// Give the load in the tab at `index` the bytes that came for it.
    fn feed(&mut self, index: usize, wanted: Vec<PendingResource>, got: &Resource)
        requires
            old(self).wf(),
            index < old(self)@.tabs.len(),
        ensures
            final(self).wf(),
            final(self)@ == old(self)@.with_tab_at(
                index as int,
                fed_tab(old(self)@.tabs[index as int], wanted@, *got),
            ),
    {
        proof {
            reveal(Browser::state);
        }
        let ghost before = self@;
        self.tabs[index].feed(wanted, got);
        proof {
            assert(self@.tabs =~= before.tabs.update(index as int, self@.tabs[index as int]));
            changing_a_tab_is_sound(before, index as int, self@.tabs[index as int]);
        }
    }
}

impl Browser {
    /// Give the tab at `index` the bytes that came for it.
    fn give_resource(
        &mut self,
        index: usize,
        url: String,
        wanted: Vec<PendingResource>,
        got: &Resource,
    )
        requires
            old(self).wf(),
            index < old(self)@.tabs.len(),
        ensures
            final(self).wf(),
            final(self)@ == resource_given(old(self)@, index as int, url@, wanted@, *got),
    {
        if find_picture_wanted(&wanted) {
            self.keep_picture(url, got.picture);
        }
        self.feed(index, wanted, got);
    }

    /// Something on the page in the tab at `index` came, or failed to. Says whether its parse
    /// may go on: a script that will not come must not stop the page for ever.
    fn receive_subresource(
        &mut self,
        index: usize,
        id: u64,
        url: String,
        result: Result<Resource, String>,
    ) -> (resume: bool)
        requires
            old(self).wf(),
            index < old(self)@.tabs.len(),
        ensures
            final(self).wf(),
            ({
                let receipt = resource_received(old(self)@, index as int, id, url@, result);
                &&& final(self)@ == receipt.state
                &&& resume == (receipt.resume == Some(index as int))
                &&& !resume ==> receipt.resume is None
            }),
    {
        let ghost before = self@;
        let wanted = self.take_wanted(index, id);
        if wanted.len() == 0 {
            proof {
                let tab = before.tabs[index as int];
                match tab.pending {
                    Some(load) => nothing_fed_is_nothing_taken(load.outstanding, id),
                    None => {},
                }
                assert(before.tabs.update(index as int, tab) =~= before.tabs);
            }
            return false;
        }
        let resume = find_script_wanted(&wanted);
        match result {
            Err(_) => {},
            Ok(got) => self.give_resource(index, url, wanted, &got),
        }
        if !resume {
            self.finish_if_settled(index);
        }
        resume
    }

    /// The navigation in the tab at `index` failed.
    fn fail(&mut self, index: usize, error: String)
        requires
            old(self).wf(),
            index < old(self)@.tabs.len(),
        ensures
            final(self).wf(),
            final(self)@ == old(self)@.with_tab_at(
                index as int,
                failed_tab(old(self)@.tabs[index as int], error@),
            ),
    {
        proof {
            reveal(Browser::state);
        }
        let ghost before = self@;
        self.tabs[index].fail(error);
        proof {
            assert(self@.tabs =~= before.tabs.update(index as int, self@.tabs[index as int]));
            changing_a_tab_is_sound(before, index as int, self@.tabs[index as int]);
        }
    }

    /// The directory downloads go to without a question, if there is one.
    fn silent_directory(&self) -> (directory: Option<String>)
        ensures
            directory == if self@.settings.ask_where_to_save {
                None
            } else {
                self@.settings.download_directory
            },
    {
        proof {
            reveal(Browser::state);
        }
        if self.settings.ask_where_to_save {
            None
        } else {
            copy_text(&self.settings.download_directory)
        }
    }

    /// Write an attachment to disk where the preferences say to without asking.
    ///
    /// The preference decides here rather than on the page: an automatic download is one
    /// nobody pressed anything for, so the write has to start where the bytes arrive.
    fn save_attachment(&mut self, attachment: Attachment)
        requires
            old(self).wf(),
        ensures
            final(self).wf(),
            final(self)@ == attachment_saved(old(self)@, attachment),
    {
        match self.silent_directory() {
            Some(directory) => match attachment.recorded {
                Some(id) => {
                    self.tell(
                        Command::Save(
                            id,
                            Destination::Into { directory, filename: attachment.filename },
                        ),
                    );
                },
                None => {},
            },
            None => {},
        }
    }

    /// Show the downloads in the tab at `index`.
    fn put_downloads(&mut self, index: usize)
        requires
            old(self).wf(),
            index < old(self)@.tabs.len(),
        ensures
            final(self).wf(),
            final(self)@ == old(self)@.with_tab_at(
                index as int,
                on_system_page(old(self)@.tabs[index as int], SystemPage::Downloads),
            ),
    {
        proof {
            reveal(Browser::state);
        }
        let ghost before = self@;
        self.tabs[index].show_system_page(SystemPage::Downloads);
        proof {
            assert(self@.tabs =~= before.tabs.update(index as int, self@.tabs[index as int]));
            changing_a_tab_is_sound(before, index as int, self@.tabs[index as int]);
        }
    }

    /// The navigation in the tab at `index` turned out to be a download.
    fn receive_attachment(&mut self, index: usize, attachment: Attachment)
        requires
            old(self).wf(),
            index < old(self)@.tabs.len(),
        ensures
            final(self).wf(),
            final(self)@ == attachment_received(old(self)@, index as int, attachment),
            final(self)@.tabs.len() == old(self)@.tabs.len(),
    {
        let ghost before = self@;
        let active = self.active_index();
        let tab = self.tab_at(index);
        let (record, previous) = match &tab.pending {
            Some(load) => (load.record, load.previous_url.clone()),
            None => (false, String::new()),
        };
        self.save_attachment(attachment);
        assert(self@.tabs == before.tabs);
        self.put_downloads(index);
        if record {
            self.record_history(index, &previous);
        }
        if index == active {
            proof {
                showing_an_address_changes_no_tab(self@);
            }
            self.sync_address();
            self.activate_surface(Surface::System);
        }
    }

    /// Have the load in the tab at `index` wait for `outstanding`.
    fn wait_on(&mut self, index: usize, outstanding: Vec<Outstanding>)
        requires
            old(self).wf(),
            index < old(self)@.tabs.len(),
        ensures
            final(self).wf(),
            final(self)@ == old(self)@.with_tab_at(
                index as int,
                waiting_on(old(self)@.tabs[index as int], outstanding@),
            ),
    {
        proof {
            reveal(Browser::state);
        }
        let ghost before = self@;
        self.tabs[index].wait_on(outstanding);
        proof {
            assert(self@.tabs =~= before.tabs.update(index as int, self@.tabs[index as int]));
            changing_a_tab_is_sound(before, index as int, self@.tabs[index as int]);
        }
    }

    /// Ask for every script a document's bytes name, before they are parsed.
    ///
    /// This reads the raw bytes for what will be needed and puts the requests on the wire
    /// now, so that by the time the parse reaches a script its bytes are already coming.
    /// It does not decide when anything runs.
    pub fn prefetch_scripts(&mut self, index: usize, tags: Vec<SourceTag>)
        requires
            old(self).wf(),
            index < old(self)@.tabs.len(),
        ensures
            final(self).wf(),
            final(self)@ == scripts_prefetched(old(self)@, index as int, tags@),
            final(self)@.tabs.len() == old(self)@.tabs.len(),
    {
        let outstanding = self.request_subresources(Vec::new(), want_sources(tags));
        if outstanding.len() > 0 {
            self.wait_on(index, outstanding);
        }
    }

    /// The page itself came to the tab at `index`.
    fn receive_document(&mut self, index: usize, result: Result<Arrival, String>)
        requires
            old(self).wf(),
            index < old(self)@.tabs.len(),
        ensures
            final(self).wf(),
            final(self)@ == document_received(old(self)@, index as int, result),
            final(self)@.tabs.len() == old(self)@.tabs.len(),
    {
        match result {
            Err(error) => self.fail(index, error),
            Ok(Arrival::Attachment(attachment)) => self.receive_attachment(index, attachment),
            Ok(Arrival::Document(document)) => {
                match document.scripts {
                    Some(tags) => self.prefetch_scripts(index, tags),
                    None => {},
                }
                self.build_document(index, document.url, document.site, document.parsed);
            },
        }
    }

    /// The answer to a request that no face waits for.
    fn receive_resource(&mut self, id: u64, url: String, result: Result<Resource, String>) -> (got:
        Received)
        requires
            old(self).wf(),
        ensures
            final(self).wf(),
            is_receipt(
                got,
                final(self)@,
                resource_answered(old(self)@, id, url@, result),
            ),
    {
        let picture = match &result {
            Ok(got) => got.picture,
            Err(_) => None,
        };
        let (_, background, chosen) = self.asked_apart(id);
        if background {
            match self.take_background(id) {
                Some(fetch) => self.receive_background(url, fetch, picture),
                None => {},
            }
            return Received { changed: picture.is_some(), resume: None };
        }
        if chosen {
            match self.take_picture(id) {
                Some(fetch) => self.receive_picture(url, fetch, picture),
                None => {},
            }
            return Received { changed: picture.is_some(), resume: None };
        }
        match self.awaiting(id) {
            None => Received { changed: false, resume: None },
            Some(index) => if self.receive_subresource(index, id, url, result) {
                Received { changed: true, resume: Some(index) }
            } else {
                Received { changed: true, resume: None }
            },
        }
    }

    /// Take what came back for one request.
    ///
    /// An answer that nobody waits for any more changes nothing: the tab moved on, or was
    /// closed, or the reader stopped the load.
    pub fn receive(&mut self, fetched: Fetched) -> (got: Received)
        requires
            old(self).wf(),
        ensures
            final(self).wf(),
            is_receipt(got, final(self)@, received(old(self)@, fetched)),
    {
        match fetched {
            Fetched::Document { id, result } => match self.awaiting(id) {
                None => Received { changed: false, resume: None },
                Some(index) => {
                    self.receive_document(index, result);
                    if self.can_step(index) {
                        Received { changed: true, resume: Some(index) }
                    } else {
                        Received { changed: true, resume: None }
                    }
                },
            },
            Fetched::Resource { id, url, result } => if self.asked_apart(id).0 {
                self.take_font(id);
                let registered = match &result {
                    Ok(got) => got.registered,
                    Err(_) => false,
                };
                if registered {
                    self.tell_fonts();
                }
                Received { changed: registered, resume: None }
            } else {
                self.receive_resource(id, url, result)
            },
        }
    }

    /// Whether there is a step for the parse in the tab at `index` to take.
    fn can_step(&self, index: usize) -> (answer: bool)
        requires
            self.wf(),
            index < self@.tabs.len(),
        ensures
            answer == !(parse_step(self@.tabs[index as int]) is Rest),
    {
        match &self.tab_at(index).pending {
            None => false,
            Some(load) => match load.next_step() {
                ParseStep::Rest => false,
                ParseStep::Supply { .. } => true,
                ParseStep::Skip { .. } => true,
            },
        }
    }

    /// What to do about the parse in the tab at `index`, now that a script has come.
    ///
    /// Where there is a step to take, the parse is the caller's until
    /// [`Browser::after_parse_step`] gives it back. It may stop again at the next script,
    /// and each stop is another piece of the document on screen.
    pub fn resume_parse(&mut self, index: usize) -> (step: ParseStep)
        requires
            old(self).wf(),
            index < old(self)@.tabs.len(),
        ensures
            final(self).wf(),
            step == parse_step(old(self)@.tabs[index as int]),
            final(self)@ == old(self)@.with_tab_at(
                index as int,
                parse_taken(old(self)@.tabs[index as int]),
            ),
    {
        proof {
            reveal(Browser::state);
        }
        let ghost before = self@;
        let step = self.tabs[index].take_step();
        proof {
            assert(self@.tabs =~= before.tabs.update(index as int, self@.tabs[index as int]));
            changing_a_tab_is_sound(before, index as int, self@.tabs[index as int]);
        }
        step
    }

    /// Have the load in the tab at `index` wait for `more`, its parse stopped at `node`.
    fn stop_parse_at(&mut self, index: usize, more: Vec<Outstanding>, node: u64)
        requires
            old(self).wf(),
            index < old(self)@.tabs.len(),
        ensures
            final(self).wf(),
            final(self)@ == old(self)@.with_tab_at(
                index as int,
                parsing_at(
                    waiting_for_more(old(self)@.tabs[index as int], more@),
                    Some(node),
                ),
            ),
    {
        proof {
            reveal(Browser::state);
        }
        let ghost before = self@;
        self.tabs[index].stop_at(more, node);
        proof {
            assert(self@.tabs =~= before.tabs.update(index as int, self@.tabs[index as int]));
            changing_a_tab_is_sound(before, index as int, self@.tabs[index as int]);
        }
    }

    /// Take the parse in the tab at `index` back, and ask for the script it is stopped at
    /// if it is stopped at another, or for everything left that the document names.
    pub fn after_parse_step(&mut self, index: usize, parse: ParseState)
        requires
            old(self).wf(),
            index < old(self)@.tabs.len(),
        ensures
            final(self).wf(),
            final(self)@ == parse_stepped(old(self)@, index as int, parse),
    {
        match parse {
            ParseState::Stopped(tag) => {
                let node: u64 = tag.node;
                let more = self.request_subresources(Vec::new(), want_stop(tag));
                self.stop_parse_at(index, more, node);
            },
            ParseState::Finished(parsed) => self.complete_document(index, parsed),
        }
    }

    /// Whether the tab at `index` is still waiting for a stylesheet it cannot be drawn
    /// without.
    ///
    /// A document painted before its stylesheet arrives is painted in the wrong fonts, at
    /// the wrong widths, in the wrong colours, and then jumps. Pictures are not on this
    /// list: a page held back for a photograph is a page nobody can start reading. Nor is
    /// a sheet among `elsewhere`, which are written for another medium.
    pub fn blocked_on_style(&self, index: usize, elsewhere: &Vec<u64>) -> (answer: bool)
        requires
            self.wf(),
            index < self@.tabs.len(),
        ensures
            answer == style_blocked(self@.tabs[index as int], elsewhere@),
    {
        match &self.tab_at(index).pending {
            Some(load) => load.awaits_style(elsewhere),
            None => false,
        }
    }

    /// How many navigations the page's script has asked for in a row.
    pub fn hops(&self) -> (hops: u8)
        ensures
            hops == self@.script_hops,
    {
        proof {
            reveal(Browser::state);
        }
        self.script_hops
    }

    /// Count one navigation more.
    fn count_hop(&mut self)
        requires
            old(self).wf(),
            old(self)@.script_hops < u8::MAX,
        ensures
            final(self).wf(),
            final(self)@ == hopped(old(self)@),
    {
        proof {
            reveal(Browser::state);
        }
        self.script_hops = self.script_hops + 1;
    }

    /// Go where the script of the page in the tab at `index` said to go.
    ///
    /// A redirector is a page whose whole content is an instruction to be somewhere else.
    /// Script asks; the browser decides. A background tab's script is not followed, and
    /// one that navigates in a loop is stopped.
    pub fn follow_script_navigation(&mut self, index: usize, wish: ScriptNavigation)
        requires
            old(self).wf(),
        ensures
            final(self).wf(),
            final(self)@ == script_navigated(old(self)@, index as int, wish),
    {
        if index != self.active_index() || self.hops() >= SCRIPT_HOP_LIMIT {
            return;
        }
        self.count_hop();
        match wish {
            ScriptNavigation::Reload(target) => self.start_load(target, false, false, 0),
            ScriptNavigation::Url { target, replace } => {
                self.remember_scroll();
                self.start_load(target, false, !replace, 0);
            },
            ScriptNavigation::Submit(Some(form)) => self.follow_submission(form),
            ScriptNavigation::Submit(None) => {},
        }
    }
}

/// What a scan of a document's bytes wants, as far as the limit goes.
fn want_sources(tags: Vec<SourceTag>) -> (wanted: Vec<Wanted>)
    ensures
        wanted@ == sources_wanted(tags@),
{
    let ghost all = tags@;
    let ghost kept = at_most(all, SCRIPT_LIMIT as int);
    let mut left: Vec<SourceTag> = tags;
    left.truncate(SCRIPT_LIMIT);
    assert(left@ =~= kept);
    let count: usize = left.len();
    let mut wanted: Vec<Wanted> = Vec::new();
    let mut done: usize = 0;
    assert(kept.skip(0) =~= kept);
    while done < count
        invariant
            done <= count,
            count == kept.len(),
            left@ == kept.skip(done as int),
            wanted@.len() == done,
            forall|i: int| 0 <= i < done ==> #[trigger] wanted@[i] == source_wanted(kept[i]),
        decreases count - done,
    {
        let tag = left.remove(0);
        proof {
            assert(tag == kept[done as int]);
            assert(left@ =~= kept.skip(done + 1));
        }
        wanted.push(
            Wanted {
                link: tag.link,
                resource: PendingResource::ScriptSource(tag.src),
                kind: ResourceKind::Script,
            },
        );
        done = done + 1;
    }
    assert(wanted@ =~= sources_wanted(all));
    wanted
}

/// What a stopped parse wants.
fn want_stop(tag: ScriptTag) -> (wanted: Vec<Wanted>)
    ensures
        wanted@ == stop_wanted(tag),
{
    let mut wanted: Vec<Wanted> = Vec::new();
    match name_script(tag) {
        Some(script) => wanted.push(
            Wanted {
                link: script.link,
                resource: PendingResource::Script(script.node),
                kind: ResourceKind::Script,
            },
        ),
        None => {},
    }
    assert(wanted@ =~= stop_wanted(tag));
    wanted
}

proof fn nothing_fed_is_nothing_taken(outstanding: Seq<Outstanding>, id: u64)
    requires
        fed_by(outstanding, id).len() == 0,
    ensures
        without_request(outstanding, id) == outstanding,
    decreases outstanding.len(),
{
    if outstanding.len() > 0 {
        nothing_fed_is_nothing_taken(outstanding.drop_last(), id);
        assert(outstanding.drop_last().push(outstanding.last()) =~= outstanding);
    }
}

proof fn awaiting_is_stable(tabs: Seq<TabView>, id: u64, count: int)
    requires
        0 <= count <= tabs.len(),
        awaiting(tabs.take(count), id) is Some,
    ensures
        awaiting(tabs, id) == awaiting(tabs.take(count), id),
    decreases tabs.len() - count,
{
    if count < tabs.len() {
        let longer = tabs.take(count + 1);
        assert(longer.drop_last() =~= tabs.take(count));
        awaiting_is_stable(tabs, id, count + 1);
    } else {
        assert(tabs.take(count) =~= tabs);
    }
}

/// Scripts run in the order the document names them: each of those that run came, and stands
/// further on in the document than the one before it.
pub proof fn scripts_run_in_the_order_of_the_document(
    order: Seq<u64>,
    scripts: Map<u64, String>,
) -> (places: Seq<int>)
    ensures
        ({
            let run = scripts_that_came(order, scripts);
            &&& places.len() == run.len()
            &&& forall|i: int|
                0 <= i < run.len() ==> 0 <= #[trigger] places[i] < order.len() && run[i]
                    == order[places[i]] && scripts.contains_key(run[i])
            &&& forall|i: int, j: int|
                0 <= i < j < run.len() ==> #[trigger] places[i] < #[trigger] places[j]
        }),
    decreases order.len(),
{
    if order.len() == 0 {
        seq![]
    } else {
        let before = scripts_run_in_the_order_of_the_document(order.drop_last(), scripts);
        if scripts.contains_key(order.last()) {
            before.push(order.len() - 1)
        } else {
            before
        }
    }
}

/// Every script that came runs.
pub proof fn a_script_that_came_runs(order: Seq<u64>, scripts: Map<u64, String>, k: int)
    requires
        0 <= k < order.len(),
        scripts.contains_key(order[k]),
    ensures
        scripts_that_came(order, scripts).contains(order[k]),
    decreases order.len(),
{
    let run = scripts_that_came(order, scripts);
    if k < order.len() - 1 {
        let fewer = scripts_that_came(order.drop_last(), scripts);
        a_script_that_came_runs(order.drop_last(), scripts, k);
        let i = choose|i: int| 0 <= i < fewer.len() && fewer[i] == order[k];
        assert(run[i] == order[k]);
    } else {
        assert(run[run.len() - 1] == order[k]);
    }
}

/// Where every script of a document came, what runs is the document's own list.
pub proof fn where_all_came_all_run_as_they_stand(order: Seq<u64>, scripts: Map<u64, String>)
    requires
        forall|k: int| 0 <= k < order.len() ==> scripts.contains_key(#[trigger] order[k]),
    ensures
        scripts_that_came(order, scripts) == order,
    decreases order.len(),
{
    if order.len() > 0 {
        let fewer = order.drop_last();
        assert forall|k: int| 0 <= k < fewer.len() implies scripts.contains_key(
            #[trigger] fewer[k],
        ) by {
            assert(fewer[k] == order[k]);
        }
        where_all_came_all_run_as_they_stand(fewer, scripts);
        assert(scripts.contains_key(order[order.len() - 1]));
        assert(fewer.push(order.last()) =~= order);
    }
}

} // verus!
