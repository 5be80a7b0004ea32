//! Where what comes goes: to the tab that waits for it and to the elements it was asked for,
//! and to nobody else.

use vstd::prelude::*;

use crate::address::address_synced;
use crate::arriving::{
    answered_tab, attachment_received, attachment_saved, awaiting, document_received,
    document_shown, fed, fed_by, fed_one, font_taken, fonts_told, load_left, load_records,
    parse_step, parse_stepped, parse_taken, picture_kept, received, resource_given,
    resource_received, scripts_prefetched, source_wanted, sources_wanted, stop_wanted, waiting_on,
    waits_for, without_request, Arrival, Attachment, Document, Fetched, ParseState, ParseStep,
    Resource, SourceTag,
};
use crate::asking::{
    asked_for_all, asking_for, asking_is_sound, is_asked, what_may_be_reached_is_asked_for,
};
use crate::browser::{
    changing_a_tab_is_sound, each_tab_is_sound, saying, Command, Destination, PlaceView, State,
    Surface,
};
use crate::building::{load_finished, ScriptTag};
use crate::images::{found, sound, what_fits_is_found, Picture};
use crate::journeys::a_document_that_comes_earns_its_entry;
use crate::navigation::{history_recorded, on_system_page, recorded};
use crate::strip::{activating_changes_no_tab, showing_an_address_changes_no_tab};
use crate::system::SystemPage;
use crate::tab::{Outstanding, PendingResource, PendingView, TabView};
use crate::text::blank;

verus! {

/// An answer goes to the first tab whose load waits for it, and to none where none does.
pub proof fn an_answer_goes_to_the_tab_that_waits(tabs: Seq<TabView>, id: u64)
    ensures
        match awaiting(tabs, id) {
            Some(index) => {
                &&& 0 <= index < tabs.len()
                &&& tabs[index].pending is Some
                &&& tabs[index].pending->0.document == id || exists|i: int|
                    0 <= i < tabs[index].pending->0.outstanding.len() && (
                    #[trigger] tabs[index].pending->0.outstanding[i]).id == id
                &&& forall|j: int| 0 <= j < index ==> !waits_for(#[trigger] tabs[j], id)
            },
            None => forall|j: int| 0 <= j < tabs.len() ==> !waits_for(#[trigger] tabs[j], id),
        },
    decreases tabs.len(),
{
    if tabs.len() > 0 {
        let fewer = tabs.drop_last();
        an_answer_goes_to_the_tab_that_waits(fewer, id);
        match awaiting(fewer, id) {
            Some(index) => {
                assert(fewer[index] == tabs[index]);
                assert forall|j: int| 0 <= j < index implies !waits_for(#[trigger] tabs[j], id) by {
                    assert(fewer[j] == tabs[j]);
                }
            },
            None => {
                assert forall|j: int| 0 <= j < fewer.len() implies !waits_for(
                    #[trigger] tabs[j],
                    id,
                ) by {
                    assert(fewer[j] == tabs[j]);
                }
            },
        }
    }
}

/// What an answer feeds is what was asked for under its number, and what is waited for after
/// it is what was asked for under any other, each in the order it was asked for.
pub proof fn an_answer_is_for_its_own_number(outstanding: Seq<Outstanding>, id: u64)
    ensures
        without_request(outstanding, id) == outstanding.filter(|held: Outstanding| held.id != id),
        fed_by(outstanding, id) == outstanding.filter(
            |held: Outstanding| held.id == id,
        ).map_values(|held: Outstanding| held.resource),
    decreases outstanding.len(),
{
    reveal(Seq::filter);
    let own = |held: Outstanding| held.id == id;
    let resource = |held: Outstanding| held.resource;
    if outstanding.len() > 0 {
        let fewer = outstanding.drop_last();
        an_answer_is_for_its_own_number(fewer, id);
        if outstanding.last().id == id {
            assert(fewer.filter(own).push(outstanding.last()).map_values(resource) =~= fewer.filter(
                own,
            ).map_values(resource).push(outstanding.last().resource));
        }
    } else {
        assert(without_request(outstanding, id) =~= outstanding.filter(
            |held: Outstanding| held.id != id,
        ));
        assert(fed_by(outstanding, id) =~= outstanding.filter(own).map_values(resource));
    }
}

/// Whether a load holds what came for one thing that was wanted of it: the text of a
/// stylesheet or a script under its element, and a picture under its element at the density
/// and the name it was chosen by.
pub open spec fn holds_for(load: PendingView, wanted: PendingResource, got: Resource) -> bool {
    match wanted {
        PendingResource::Stylesheet(node) => load.sheets.contains_key(node) && load.sheets[node]
            == got.text,
        PendingResource::Script(node) => load.scripts.contains_key(node) && load.scripts[node]
            == got.text,
        PendingResource::ScriptSource(_) => true,
        PendingResource::Image(node, src, density) => got.picture is Some ==> {
            &&& load.images.contains_key(node)
            &&& load.images[node].picture == got.picture->0
            &&& load.picture_sources.contains_key(node)
        },
    }
}

/// A load that is fed holds what came for each thing that was wanted of it, and for nothing
/// else: it waits for the same, a stylesheet changes no script, a script no stylesheet and
/// neither a picture, and a picture that could not be decoded changes none.
pub proof fn what_is_fed_reaches_what_wanted_it(
    load: PendingView,
    wanted: Seq<PendingResource>,
    got: Resource,
    k: int,
)
    requires
        0 <= k < wanted.len(),
    ensures
        holds_for(fed(load, wanted, got), wanted[k], got),
    decreases wanted.len(),
{
    let before = fed(load, wanted.drop_last(), got);
    if k < wanted.len() - 1 {
        what_is_fed_reaches_what_wanted_it(load, wanted.drop_last(), got, k);
        assert(wanted.drop_last()[k] == wanted[k]);
    }
}

/// An element that nothing came for has what it had.
pub proof fn what_was_not_wanted_is_not_fed(
    load: PendingView,
    wanted: Seq<PendingResource>,
    got: Resource,
    node: u64,
)
    ensures
        ({
            let after = fed(load, wanted, got);
            &&& after.outstanding == load.outstanding
            &&& after.document == load.document
            &&& after.record == load.record
            &&& after.restore_scroll == load.restore_scroll
            &&& after.script_order == load.script_order
            &&& after.parse == load.parse
            &&& !wanted.contains(PendingResource::Stylesheet(node)) ==> after.sheets.contains_key(
                node,
            ) == load.sheets.contains_key(node) && after.sheets[node] == load.sheets[node]
            &&& !wanted.contains(PendingResource::Script(node)) ==> after.scripts.contains_key(node)
                == load.scripts.contains_key(node) && after.scripts[node] == load.scripts[node]
            &&& (forall|i: int|
                0 <= i < wanted.len() ==> !((#[trigger] wanted[i]) is Image && wanted[i]->Image_0
                    == node)) ==> after.images.contains_key(node) == load.images.contains_key(node)
                && after.images[node] == load.images[node]
        }),
    decreases wanted.len(),
{
    if wanted.len() > 0 {
        let fewer = wanted.drop_last();
        what_was_not_wanted_is_not_fed(load, fewer, got, node);
        assert(wanted[wanted.len() - 1] == wanted.last());
        if fewer.contains(PendingResource::Stylesheet(node)) {
            let i = choose|i: int|
                0 <= i < fewer.len() && fewer[i] == PendingResource::Stylesheet(node);
            assert(wanted[i] == PendingResource::Stylesheet(node));
        }
        if fewer.contains(PendingResource::Script(node)) {
            let i = choose|i: int| 0 <= i < fewer.len() && fewer[i] == PendingResource::Script(node);
            assert(wanted[i] == PendingResource::Script(node));
        }
        if forall|i: int|
            0 <= i < wanted.len() ==> !((#[trigger] wanted[i]) is Image && wanted[i]->Image_0
                == node) {
            assert forall|i: int| 0 <= i < fewer.len() implies !((#[trigger] fewer[i]) is Image
                && fewer[i]->Image_0 == node) by {
                assert(fewer[i] == wanted[i]);
            }
        }
    }
}

/// A picture is shown at the density it was chosen at and under the name it was chosen by.
pub proof fn a_picture_is_shown_as_it_was_chosen(
    load: PendingView,
    node: u64,
    src: String,
    density: u32,
    got: Resource,
)
    ensures
        ({
            let after = fed_one(load, PendingResource::Image(node, src, density), got);
            &&& got.picture is Some ==> {
                &&& after.images[node].picture == got.picture->0
                &&& after.images[node].density == density
                &&& after.picture_sources[node].src == src
                &&& after.picture_sources[node].density == density
            }
            &&& got.picture is None ==> after == load
            &&& after.sheets == load.sheets
            &&& after.scripts == load.scripts
        }),
{
}

/// What the load in a tab is after an answer: what is still pending, or what was handed over
/// as finished.
pub open spec fn load_after(before: State, after: State, index: int) -> PendingView {
    if after.tabs[index].pending is Some {
        after.tabs[index].pending->0
    } else {
        after.finished.last().1
    }
}

/// What comes for something on a page reaches every element it was asked for, is waited for no
/// more, and changes no other tab. Where a script was wanted the parse may go on; otherwise
/// the load is over exactly where nothing else is waited for and no parse has stopped.
pub proof fn what_comes_reaches_the_elements_it_was_for(
    s: State,
    index: int,
    id: u64,
    url: Seq<char>,
    got: Resource,
    k: int,
)
    requires
        0 <= index < s.tabs.len(),
        s.tabs[index].pending is Some,
        0 <= k < s.tabs[index].pending->0.outstanding.len(),
        s.tabs[index].pending->0.outstanding[k].id == id,
    ensures
        ({
            let load = s.tabs[index].pending->0;
            let receipt = resource_received(s, index, id, url, Ok(got));
            let after = load_after(s, receipt.state, index);
            &&& receipt.changed
            &&& holds_for(after, load.outstanding[k].resource, got)
            &&& after.outstanding == without_request(load.outstanding, id)
            &&& load.outstanding[k].resource is Script ==> receipt.resume == Some(index)
            &&& receipt.resume is Some ==> receipt.resume == Some(index)
                && receipt.state.tabs[index].pending is Some
            &&& receipt.resume is None ==> (receipt.state.tabs[index].pending is None <==> (
            after.outstanding.len() == 0 && load.parse is None))
            &&& receipt.state.tabs.len() == s.tabs.len()
            &&& forall|i: int|
                0 <= i < s.tabs.len() && i != index ==> receipt.state.tabs[i]
                    == #[trigger] s.tabs[i]
        }),
{
    reveal(saying);
    let load = s.tabs[index].pending->0;
    let at = asked_for_is_fed(load.outstanding, id, k);
    let wanted = fed_by(load.outstanding, id);
    let taken = s.with_tab_at(index, answered_tab(s.tabs[index], id));
    let answered = taken.tabs[index].pending->0;
    what_is_fed_reaches_what_wanted_it(answered, wanted, got, at);
    what_was_not_wanted_is_not_fed(answered, wanted, got, 0);
    let given = resource_given(taken, index, url, wanted, got);
    assert(given.tabs[index].pending == Some(fed(answered, wanted, got)));
    assert(given.tabs.len() == s.tabs.len());
    assert forall|i: int| 0 <= i < s.tabs.len() && i != index implies given.tabs[i]
        == #[trigger] s.tabs[i] by {}
    if load.outstanding[k].resource is Script {
        assert(wanted[at] is Script);
    }
}

proof fn asked_for_is_fed(outstanding: Seq<Outstanding>, id: u64, k: int) -> (at: int)
    requires
        0 <= k < outstanding.len(),
        outstanding[k].id == id,
    ensures
        0 <= at < fed_by(outstanding, id).len(),
        fed_by(outstanding, id)[at] == outstanding[k].resource,
    decreases outstanding.len(),
{
    if k < outstanding.len() - 1 {
        asked_for_is_fed(outstanding.drop_last(), id, k)
    } else {
        fed_by(outstanding, id).len() - 1
    }
}

/// A face that came is news to every page there is, and to no tab without one.
pub proof fn every_page_is_told_of_a_face(s: State, count: nat, i: int)
    requires
        count <= s.tabs.len(),
        0 <= i < count,
    ensures
        fonts_told(s, count).tabs == s.tabs,
        fonts_told(s, count).told.len() >= s.told.len(),
        s.tabs[i].page is Some ==> exists|at: int|
            s.told.len() <= at < fonts_told(s, count).told.len() && #[trigger] fonts_told(
                s,
                count,
            ).told[at] == Command::FontArrived(s.tabs[i].id),
        forall|at: int|
            s.told.len() <= at < fonts_told(s, count).told.len() ==> exists|j: int|
                0 <= j < count && s.tabs[j].page is Some && #[trigger] fonts_told(
                    s,
                    count,
                ).told[at] == Command::FontArrived((#[trigger] s.tabs[j]).id),
    decreases count,
{
    telling_of_a_face(s, count);
    telling_of_a_face(s, (count - 1) as nat);
    let after = fonts_told(s, count).told;
    let fewer = fonts_told(s, (count - 1) as nat).told;
    if i < count - 1 {
        every_page_is_told_of_a_face(s, (count - 1) as nat, i);
        if s.tabs[i].page is Some {
            let at = choose|at: int|
                s.told.len() <= at < fewer.len() && #[trigger] fewer[at] == Command::FontArrived(
                    s.tabs[i].id,
                );
            assert(after[at] == fewer[at]);
        }
    } else if s.tabs[i].page is Some {
        assert(after[after.len() - 1] == Command::FontArrived(s.tabs[i].id));
    }
}

proof fn telling_of_a_face(s: State, count: nat)
    requires
        count <= s.tabs.len(),
    ensures
        fonts_told(s, count).tabs == s.tabs,
        fonts_told(s, count).told.len() >= s.told.len(),
        count > 0 ==> fonts_told(s, count).told == (if s.tabs[count - 1].page is Some {
            fonts_told(s, (count - 1) as nat).told.push(
                Command::FontArrived(s.tabs[count - 1].id),
            )
        } else {
            fonts_told(s, (count - 1) as nat).told
        }),
        forall|at: int|
            s.told.len() <= at < fonts_told(s, count).told.len() ==> exists|j: int|
                0 <= j < count && s.tabs[j].page is Some && #[trigger] fonts_told(
                    s,
                    count,
                ).told[at] == Command::FontArrived((#[trigger] s.tabs[j]).id),
    decreases count,
{
    reveal(saying);
    if count > 0 {
        telling_of_a_face(s, (count - 1) as nat);
        let before = fonts_told(s, (count - 1) as nat).told;
        let after = fonts_told(s, count).told;
        assert forall|at: int| s.told.len() <= at < after.len() implies exists|j: int|
            0 <= j < count && s.tabs[j].page is Some && #[trigger] after[at]
                == Command::FontArrived((#[trigger] s.tabs[j]).id) by {
            if at < before.len() {
                assert(after[at] == before[at]);
                let j = choose|j: int|
                    0 <= j < count - 1 && s.tabs[j].page is Some && before[at]
                        == Command::FontArrived((#[trigger] s.tabs[j]).id);
                assert(s.tabs[j].page is Some);
            } else {
                assert(s.tabs[count - 1].page is Some);
            }
        }
    }
}

/// A parse that is stopped at a script is handed its source once that has come, goes on
/// without it once it will not, and waits while it is on its way.
pub proof fn a_parse_goes_on_when_its_script_came_or_will_not(tab: TabView)
    requires
        tab.pending is Some,
    ensures
        ({
            let load = tab.pending->0;
            let step = parse_step(tab);
            let coming = exists|i: int|
                0 <= i < load.outstanding.len() && (#[trigger] load.outstanding[i]).resource
                    == PendingResource::Script(load.parse->0);
            &&& load.parse is None ==> step is Rest
            &&& load.parse is Some && load.scripts.contains_key(load.parse->0) ==> step
                == (ParseStep::Supply {
                node: load.parse->0,
                source: load.scripts[load.parse->0],
            })
            &&& load.parse is Some && !load.scripts.contains_key(load.parse->0) && coming
                ==> step is Rest
            &&& load.parse is Some && !load.scripts.contains_key(load.parse->0) && !coming ==> step
                == (ParseStep::Skip { node: load.parse->0 })
        }),
{
}

/// An attachment that is written without asking is written under its own name into the folder
/// that is preferred.
pub proof fn an_attachment_is_written_under_its_name(
    s: State,
    attachment: Attachment,
    id: u64,
    directory: String,
)
    requires
        attachment.recorded == Some(id),
        s.settings.download_directory == Some(directory),
    ensures
        !s.settings.ask_where_to_save ==> attachment_saved(s, attachment).told == s.told.push(
            Command::Save(
                id,
                Destination::Into { directory, filename: attachment.filename },
            ),
        ),
        s.settings.ask_where_to_save ==> attachment_saved(s, attachment) == s,
{
}

/// A document reaches the tab that waits for it: that tab is at the address the document came
/// from in the end, under its title, with its entry in the history where it earned one, and
/// no other tab is touched. Its parse goes on at once exactly where it has a step to take.
pub proof fn a_document_reaches_the_tab_that_waits(
    s: State,
    id: u64,
    index: int,
    document: Document,
)
    requires
        s.wf(),
        awaiting(s.tabs, id) == Some(index),
    ensures
        ({
            let tab = s.tabs[index];
            let load = tab.pending->0;
            let receipt = received(
                s,
                Fetched::Document { id, result: Ok(Arrival::Document(document)) },
            );
            let now = receipt.state.tabs[index];
            let title = match document.parsed.title {
                Some(title) => title@,
                None => document.url@,
            };
            let earned = load.record && (document.url@ != load.previous_url || tab.history.len()
                == 0);
            let kept = if tab.history.len() == 0 {
                0
            } else {
                tab.position + 1
            };
            &&& receipt.changed
            &&& now.url == document.url@
            &&& now.site == document.site.deep_view()
            &&& now.title == title
            &&& now.page is Some
            &&& earned ==> now.history.len() == kept + 1 && now.history[kept].url == document.url@
                && now.position == kept && receipt.state.visits == s.visits.push(
                PlaceView { url: document.url@, title },
            )
            &&& !earned ==> now.history == tab.history && now.position == tab.position
                && receipt.state.visits == s.visits
            &&& forall|i: int|
                0 <= i < s.tabs.len() && i != index ==> receipt.state.tabs[i]
                    == #[trigger] s.tabs[i]
            &&& receipt.resume is Some ==> receipt.resume == Some(index)
            &&& receipt.resume is Some <==> !(parse_step(now) is Rest)
        }),
{
    an_answer_goes_to_the_tab_that_waits(s.tabs, id);
    let ready = match document.scripts {
        Some(tags) => scripts_prefetched(s, index, tags@),
        None => s,
    };
    match document.scripts {
        Some(tags) => asking_before_the_parse_changes_nothing_else(s, index, tags@),
        None => {},
    }
    a_document_that_comes_earns_its_entry(
        ready,
        index,
        document.url@,
        document.site.deep_view(),
        document.parsed,
    );
    what_a_document_comes_to(s, id, index, document);
    assert forall|i: int| 0 <= i < s.tabs.len() && i != index implies document_shown(
        s,
        index,
        document,
    ).tabs[i] == #[trigger] s.tabs[i] by {
        assert(ready.tabs[i] == s.tabs[i]);
    }
}

proof fn what_a_document_comes_to(s: State, id: u64, index: int, document: Document)
    requires
        awaiting(s.tabs, id) == Some(index),
    ensures
        ({
            let receipt = received(
                s,
                Fetched::Document { id, result: Ok(Arrival::Document(document)) },
            );
            let after = document_shown(s, index, document);
            &&& receipt.state == after
            &&& receipt.changed
            &&& receipt.resume is Some ==> receipt.resume == Some(index)
            &&& receipt.resume is Some <==> !(parse_step(after.tabs[index]) is Rest)
        }),
{
}

proof fn asking_before_the_parse_changes_nothing_else(s: State, index: int, tags: Seq<SourceTag>)
    requires
        s.wf(),
        0 <= index < s.tabs.len(),
        s.tabs[index].pending is Some,
    ensures
        ({
            let ready = scripts_prefetched(s, index, tags);
            let load = s.tabs[index].pending->0;
            &&& ready.wf()
            &&& ready.visits == s.visits
            &&& ready.active == s.active
            &&& ready.tabs.len() == s.tabs.len()
            &&& ready.tabs[index].pending is Some
            &&& ready.tabs[index].pending->0.record == load.record
            &&& ready.tabs[index].pending->0.previous_url == load.previous_url
            &&& ready.tabs[index].history == s.tabs[index].history
            &&& ready.tabs[index].position == s.tabs[index].position
            &&& forall|i: int|
                0 <= i < s.tabs.len() && i != index ==> ready.tabs[i] == #[trigger] s.tabs[i]
        }),
{
    asking_is_sound(s, seq![], sources_wanted(tags));
    let asking = asking_for(s, seq![], sources_wanted(tags));
    changing_a_tab_is_sound(
        asking.state,
        index,
        waiting_on(asking.state.tabs[index], asking.outstanding),
    );
}

/// The scripts that a document's bytes name are asked for before it is parsed, the first
/// thirty-two that it may reach, each under its address as it is written.
pub proof fn a_script_in_the_bytes_is_asked_for_before_the_parse(
    s: State,
    index: int,
    tags: Seq<SourceTag>,
    k: int,
)
    requires
        0 <= index < s.tabs.len(),
        s.tabs[index].pending is Some,
        0 <= k < tags.len(),
        k < 32,
        !tags[k].link.refused,
        tags[k].link.resolved is Some,
    ensures
        ({
            let after = scripts_prefetched(s, index, tags);
            &&& after.tabs[index].pending is Some
            &&& is_asked(
                after.requests,
                s.requests.len() as int,
                after.tabs[index].pending->0.outstanding,
                tags[k].link.resolved->0@,
                PendingResource::ScriptSource(tags[k].src),
            )
        }),
{
    let wanted = sources_wanted(tags);
    assert(wanted[k] == source_wanted(tags[k]));
    what_may_be_reached_is_asked_for(s, seq![], wanted, k);
    asking_is_sound(s, seq![], wanted);
}

/// A parse that stops again is stopped at that script, which is asked for where it names an
/// address it may reach, and what was waited for before is waited for still.
pub proof fn a_parse_that_stops_waits_for_its_script(s: State, index: int, tag: ScriptTag)
    requires
        0 <= index < s.tabs.len(),
        s.tabs[index].pending is Some,
    ensures
        ({
            let load = s.tabs[index].pending->0;
            let after = parse_stepped(s, index, ParseState::Stopped(tag));
            let now = after.tabs[index].pending->0;
            let named = tag.src is Some && !blank(tag.src->0@) && !tag.link.refused
                && tag.link.resolved is Some;
            &&& after.tabs[index].pending is Some
            &&& now.parse == Some(tag.node)
            &&& now.outstanding.len() >= load.outstanding.len()
            &&& now.outstanding.take(load.outstanding.len() as int) == load.outstanding
            &&& named ==> is_asked(
                after.requests,
                s.requests.len() as int,
                now.outstanding,
                tag.link.resolved->0@,
                PendingResource::Script(tag.node),
            )
            &&& !named ==> after.requests == s.requests && now.outstanding == load.outstanding
        }),
{
    let load = s.tabs[index].pending->0;
    let wanted = stop_wanted(tag);
    let asking = asking_for(s, seq![], wanted);
    asking_is_sound(s, seq![], wanted);
    let after = parse_stepped(s, index, ParseState::Stopped(tag));
    let now = after.tabs[index].pending->0;
    assert(now.outstanding == load.outstanding + asking.outstanding);
    assert(now.outstanding.take(load.outstanding.len() as int) =~= load.outstanding);
    reveal_with_fuel(asked_for_all, 2);
    let named = tag.src is Some && !blank(tag.src->0@);
    if named {
        assert(wanted.drop_last() =~= seq![]);
        if !tag.link.refused && tag.link.resolved is Some {
            what_may_be_reached_is_asked_for(s, seq![], wanted, 0);
            let (i, j) = choose|i: int, j: int|
                s.requests.len() <= i < asking.state.requests.len() && 0 <= j
                    < asking.outstanding.len() && (#[trigger] asking.state.requests[i]).url
                    == tag.link.resolved->0@ && (#[trigger] asking.outstanding[j]).resource
                    == PendingResource::Script(tag.node) && asking.outstanding[j].id
                    == asking.state.requests[i].id;
            assert(now.outstanding[load.outstanding.len() + j] == asking.outstanding[j]);
            assert(after.requests[i].url == tag.link.resolved->0@);
        } else {
            assert(now.outstanding =~= load.outstanding);
        }
    } else {
        assert(now.outstanding =~= load.outstanding);
    }
}

/// A face that came is waited for no more, and is news exactly where it could be registered.
pub proof fn a_face_that_came_is_waited_for_no_more(
    s: State,
    id: u64,
    url: String,
    result: Result<Resource, String>,
)
    requires
        s.extras.font_fetches.contains_key(id),
    ensures
        ({
            let receipt = received(s, Fetched::Resource { id, url, result });
            let registered = result is Ok && result->Ok_0.registered;
            &&& receipt.changed == registered
            &&& receipt.resume is None
            &&& !receipt.state.extras.font_fetches.contains_key(id)
            &&& receipt.state.tabs == s.tabs
            &&& !registered ==> receipt.state.told == s.told
            &&& receipt.state.extras.images == s.extras.images
        }),
{
    let taken = font_taken(s, id);
    only_telling(taken, s.tabs.len());
}

proof fn only_telling(s: State, count: nat)
    ensures
        fonts_told(s, count) == (State { told: fonts_told(s, count).told, ..s }),
    decreases count,
{
    if count > 0 {
        only_telling(s, (count - 1) as nat);
    }
}

/// A picture that came is kept under the address it came from, for the next page that shows it.
pub proof fn a_picture_that_came_is_kept(s: State, url: Seq<char>, picture: Picture)
    requires
        sound(s.extras.images),
    ensures
        picture.bytes <= 67_108_864 ==> found(
            picture_kept(s, url, Some(picture)).extras.images,
            url,
        ) == Some(picture),
        picture.bytes > 67_108_864 ==> picture_kept(s, url, Some(picture)).extras.images
            == s.extras.images,
        picture_kept(s, url, None) == s,
        picture_kept(s, url, Some(picture)).tabs == s.tabs,
{
    if picture.bytes <= 67_108_864 {
        what_fits_is_found(s.extras.images, url, picture);
    }
}

/// A download that a navigation turned out to be is an entry of its own, on the page that names
/// the downloads, where the navigation was to be recorded; a visit goes with it.
pub proof fn a_download_is_a_place_of_its_own(s: State, index: int, attachment: Attachment)
    requires
        s.wf(),
        0 <= index < s.tabs.len(),
        s.tabs[index].pending is Some,
    ensures
        ({
            let tab = s.tabs[index];
            let load = tab.pending->0;
            let after = attachment_received(s, index, attachment);
            let now = after.tabs[index];
            let page = SystemPage::Downloads;
            let earned = load.record && (page.address() != load.previous_url || tab.history.len()
                == 0);
            let kept = if tab.history.len() == 0 {
                0
            } else {
                tab.position + 1
            };
            &&& now.url == page.address()
            &&& now.title == page.name()
            &&& now.system == Some(page)
            &&& earned ==> now.history.len() == kept + 1 && now.history[kept].url == page.address()
                && now.position == kept && after.visits == s.visits.push(
                PlaceView { url: page.address(), title: page.name() },
            )
            &&& !earned ==> now.history == tab.history && now.position == tab.position
                && after.visits == s.visits
            &&& forall|i: int|
                0 <= i < s.tabs.len() && i != index ==> after.tabs[i] == #[trigger] s.tabs[i]
            &&& index == s.active ==> after.keyboard == Surface::System
        }),
{
    each_tab_is_sound(s);
    let tab = s.tabs[index];
    let saving = attachment_saved(s, attachment);
    let there = saving.with_tab_at(index, on_system_page(tab, SystemPage::Downloads));
    changing_a_tab_is_sound(saving, index, on_system_page(tab, SystemPage::Downloads));
    let noted = if load_records(tab) {
        history_recorded(there, index, load_left(tab))
    } else {
        there
    };
    changing_a_tab_is_sound(there, index, recorded(there.tabs[index]));
    showing_an_address_changes_no_tab(noted);
    activating_changes_no_tab(address_synced(noted), Surface::System);
    assert forall|i: int| 0 <= i < s.tabs.len() && i != index implies noted.tabs[i]
        == #[trigger] s.tabs[i] by {}
}

/// A navigation that failed leaves a tab that says so by its title.
pub proof fn a_failed_tab_is_titled_so(s: State, index: int, error: String)
    requires
        0 <= index < s.tabs.len(),
    ensures
        ({
            let after = document_received(s, index, Err(error));
            &&& after.tabs[index].title == "Failed"@
            &&& after.tabs[index].error == Some(error@)
            &&& after.tabs[index].position == s.tabs[index].position
            &&& after.visits == s.visits
            &&& after.requests == s.requests
        }),
{
}

/// What failed to come is waited for no more, and feeds nothing: every element has what it had.
/// Where a script was wanted the parse may go on without it; otherwise the load is over
/// exactly where nothing else is waited for and no parse has stopped.
pub proof fn what_failed_is_waited_for_no_more(
    s: State,
    index: int,
    id: u64,
    url: Seq<char>,
    error: String,
    k: int,
)
    requires
        0 <= index < s.tabs.len(),
        s.tabs[index].pending is Some,
        0 <= k < s.tabs[index].pending->0.outstanding.len(),
        s.tabs[index].pending->0.outstanding[k].id == id,
    ensures
        ({
            let load = s.tabs[index].pending->0;
            let receipt = resource_received(s, index, id, url, Err(error));
            let after = load_after(s, receipt.state, index);
            &&& receipt.changed
            &&& after.sheets == load.sheets
            &&& after.scripts == load.scripts
            &&& after.images == load.images
            &&& after.outstanding == without_request(load.outstanding, id)
            &&& load.outstanding[k].resource is Script ==> receipt.resume == Some(index)
            &&& receipt.resume is None ==> (receipt.state.tabs[index].pending is None <==> (
            after.outstanding.len() == 0 && load.parse is None))
            &&& receipt.state.extras.images == s.extras.images
            &&& forall|i: int|
                0 <= i < s.tabs.len() && i != index ==> receipt.state.tabs[i]
                    == #[trigger] s.tabs[i]
        }),
{
    reveal(saying);
    let load = s.tabs[index].pending->0;
    let at = asked_for_is_fed(load.outstanding, id, k);
    let wanted = fed_by(load.outstanding, id);
    let taken = s.with_tab_at(index, answered_tab(s.tabs[index], id));
    assert forall|i: int| 0 <= i < s.tabs.len() && i != index implies taken.tabs[i]
        == #[trigger] s.tabs[i] by {}
    if load.outstanding[k].resource is Script {
        assert(wanted[at] is Script);
    }
}

/// A load that is over is handed over with all it gathered, under its tab's name; its page is
/// told where to be, its code is alive where the parse left it so, and the next page names its
/// backgrounds anew.
pub proof fn a_load_that_is_over_is_handed_over(s: State, index: int)
    requires
        0 <= index < s.tabs.len(),
        s.tabs[index].pending is Some,
    ensures
        ({
            let tab = s.tabs[index];
            let load = tab.pending->0;
            let after = load_finished(s, index);
            &&& after.finished.len() == s.finished.len() + 1
            &&& after.finished.last().0 == tab.id
            &&& after.finished.last().1 == load
            &&& after.tabs[index].pending is None
            &&& after.tabs[index].scripts == load.runner
            &&& after.extras.background_requests.len() == 0
            &&& after.extras.images == s.extras.images
            &&& tab.page is Some ==> after.told.contains(
                Command::SetScroll(tab.id, load.restore_scroll),
            )
            &&& tab.page is None ==> after.told == s.told
            &&& forall|i: int|
                0 <= i < s.tabs.len() && i != index ==> after.tabs[i] == #[trigger] s.tabs[i]
        }),
{
    reveal(saying);
    let tab = s.tabs[index];
    if tab.page is Some {
        assert(load_finished(s, index).told[s.told.len() as int] == Command::SetScroll(
            tab.id,
            tab.pending->0.restore_scroll,
        ));
    }
}

/// A parse that has a step to take is under way once it takes it, and stopped nowhere; one that
/// has none is left as it is. Nothing else of the tab changes.
pub proof fn a_parse_under_way_is_stopped_nowhere(tab: TabView)
    requires
        tab.pending is Some,
    ensures
        ({
            let after = parse_taken(tab);
            &&& parse_step(tab) is Rest ==> after == tab
            &&& !(parse_step(tab) is Rest) ==> {
                &&& after.pending is Some
                &&& after.pending->0.parse is None
                &&& after.pending->0.outstanding == tab.pending->0.outstanding
                &&& after.pending->0.scripts == tab.pending->0.scripts
                &&& after.pending->0.script_order == tab.pending->0.script_order
                &&& after.pending->0.record == tab.pending->0.record
                &&& after.url == tab.url
                &&& after.page == tab.page
                &&& after.history == tab.history
            }
        }),
{
}

} // verus!
