//! What a document gets of what it names: which of its pictures, scripts and stylesheets,
//! in what order, and from where.

use vstd::prelude::*;

use crate::asking::{
    asking_for, asking_is_sound, is_asked, what_may_be_reached_is_asked_for, Wanted,
};
use crate::browser::{each_tab_is_sound, RequestView, ResourceKind, State};
use crate::building::{
    at_most, document_built, document_here, document_parsed, elements_seen, gathered, images_with, is_preload_of,
    nodes_of, outstanding_of, page_shown, pictures_left, pictures_sorted,
    preload_of, script_named, scripts_adopted, scripts_deferred, scripts_in_order,
    scripts_left, scripts_named, sheet_wanted, sheets_left, sheets_wanted, stop_of, with_images,
    NamedView, Parsed, PictureTag, Ready, ScriptTag, SheetTag, IMAGE_LIMIT,
};
use crate::images::{distinct, found, looking_loses_nothing, Picture};
use crate::journeys::{a_build_is_noted, a_document_is_put_in_its_tab};
use crate::promises::asking_touches_no_tab;
use crate::tab::{Outstanding, PendingResource, Shown};
use crate::text::{blank, trimmed};

verus! {

/// A limit takes the first there are, as many as it allows, and all of them where they are no
/// more than that.
pub proof fn a_limit_takes_the_first<T>(run: Seq<T>, limit: int)
    requires
        0 <= limit,
    ensures
        at_most(run, limit).len() <= limit,
        run.len() <= limit ==> at_most(run, limit) == run,
        run.len() > limit ==> at_most(run, limit).len() == limit,
        forall|i: int|
            0 <= i < at_most(run, limit).len() ==> #[trigger] at_most(run, limit)[i] == run[i],
{
}

proof fn sorting_loses_nothing(
    images: Seq<(Seq<char>, Picture)>,
    tags: Seq<PictureTag>,
    url: Seq<char>,
)
    requires
        distinct(images),
    ensures
        distinct(pictures_sorted(images, tags).images),
        found(pictures_sorted(images, tags).images, url) == found(images, url),
    decreases tags.len(),
{
    if tags.len() > 0 {
        let before = pictures_sorted(images, tags.drop_last());
        sorting_loses_nothing(images, tags.drop_last(), url);
        let tag = tags.last();
        if !tag.link.refused && tag.link.resolved is Some {
            looking_loses_nothing(before.images, tag.link.resolved->0@, url);
        }
    }
}

/// Each picture a document shows is there at once where it is kept under its address, for the
/// element that shows it and at its density, and is wanted for that element otherwise.
pub proof fn a_picture_is_here_or_wanted(
    images: Seq<(Seq<char>, Picture)>,
    tags: Seq<PictureTag>,
    k: int,
)
    requires
        distinct(images),
        0 <= k < tags.len(),
    ensures
        ({
            let sorting = pictures_sorted(images, tags);
            let tag = tags[k];
            let here = if !tag.link.refused && tag.link.resolved is Some {
                found(images, tag.link.resolved->0@)
            } else {
                None
            };
            &&& here is Some ==> exists|i: int|
                0 <= i < sorting.ready.len() && (#[trigger] sorting.ready[i]).node == tag.node
                    && sorting.ready[i].shown.picture == here->0 && sorting.ready[i].shown.density
                    == tag.density
            &&& here is None ==> exists|i: int|
                0 <= i < sorting.wanted.len() && (#[trigger] sorting.wanted[i]).link == tag.link
                    && sorting.wanted[i].kind == ResourceKind::Image && sorting.wanted[i].resource
                    == PendingResource::Image(tag.node, tag.src, tag.density)
        }),
    decreases tags.len(),
{
    let fewer = tags.drop_last();
    let before = pictures_sorted(images, fewer);
    let after = pictures_sorted(images, tags);
    let tag = tags[k];
    let here = if !tag.link.refused && tag.link.resolved is Some {
        found(images, tag.link.resolved->0@)
    } else {
        None
    };
    if k < tags.len() - 1 {
        a_picture_is_here_or_wanted(images, fewer, k);
        assert(fewer[k] == tag);
        if here is Some {
            let i = choose|i: int|
                0 <= i < before.ready.len() && (#[trigger] before.ready[i]).node == tag.node
                    && before.ready[i].shown.picture == here->0 && before.ready[i].shown.density
                    == tag.density;
            assert(after.ready[i] == before.ready[i]);
        } else {
            let i = choose|i: int|
                0 <= i < before.wanted.len() && (#[trigger] before.wanted[i]).link == tag.link
                    && before.wanted[i].kind == ResourceKind::Image && before.wanted[i].resource
                    == PendingResource::Image(tag.node, tag.src, tag.density);
            assert(after.wanted[i] == before.wanted[i]);
        }
    } else {
        if !tag.link.refused && tag.link.resolved is Some {
            sorting_loses_nothing(images, fewer, tag.link.resolved->0@);
        }
        if here is Some {
            assert(after.ready[after.ready.len() - 1].node == tag.node);
        } else {
            assert(after.wanted[after.wanted.len() - 1].link == tag.link);
        }
    }
}

/// The pictures that were there already are shown by the elements they are for, and no other
/// element shows another picture than it did.
pub proof fn what_is_ready_is_shown(images: Map<u64, Shown>, ready: Seq<Ready>, node: u64)
    ensures
        ({
            let after = images_with(images, ready);
            &&& forall|k: int|
                0 <= k < ready.len() && (#[trigger] ready[k]).node == node && (forall|j: int|
                    k < j < ready.len() ==> (#[trigger] ready[j]).node != node)
                    ==> after.contains_key(node) && after[node] == ready[k].shown
            &&& (forall|j: int| 0 <= j < ready.len() ==> (#[trigger] ready[j]).node != node) ==> (
            after.contains_key(node) == images.contains_key(node) && after[node] == images[node])
        }),
    decreases ready.len(),
{
    if ready.len() > 0 {
        let fewer = ready.drop_last();
        what_is_ready_is_shown(images, fewer, node);
        let after = images_with(images, ready);
        assert forall|k: int|
            0 <= k < ready.len() && (#[trigger] ready[k]).node == node && (forall|j: int|
                k < j < ready.len() ==> (#[trigger] ready[j]).node
                    != node) implies after.contains_key(node) && after[node] == ready[k].shown by {
            if k < ready.len() - 1 {
                assert(ready[ready.len() - 1].node != node);
                assert(fewer[k] == ready[k]);
                assert forall|j: int| k < j < fewer.len() implies (#[trigger] fewer[j]).node
                    != node by {
                    assert(fewer[j] == ready[j]);
                }
            }
        }
        if forall|j: int| 0 <= j < ready.len() ==> (#[trigger] ready[j]).node != node {
            assert(ready[ready.len() - 1].node != node);
            assert forall|j: int| 0 <= j < fewer.len() implies (#[trigger] fewer[j]).node
                != node by {
                assert(fewer[j] == ready[j]);
            }
        }
    }
}

/// The scripts a document gets stand in the order it names them, each with its address without
/// the white space round it: none that names no address, and no more than thirty-two.
pub proof fn scripts_are_fetched_in_the_order_of_the_document(tags: Seq<ScriptTag>) -> (places: Seq<
    int,
>)
    ensures
        ({
            let scripts = scripts_deferred(tags);
            &&& scripts.len() <= 32
            &&& places.len() == scripts.len()
            &&& forall|i: int|
                0 <= i < scripts.len() ==> 0 <= #[trigger] places[i] < tags.len()
                    && tags[places[i]].src is Some && !blank(tags[places[i]].src->0@)
                    && scripts[i].node == tags[places[i]].node && scripts[i].src == trimmed(
                    tags[places[i]].src->0@,
                ) && scripts[i].link == tags[places[i]].link
            &&& forall|i: int, j: int|
                0 <= i < j < scripts.len() ==> #[trigger] places[i] < #[trigger] places[j]
        }),
{
    let all = naming_goes_in_order(tags);
    let scripts = scripts_deferred(tags);
    let places = all.take(scripts.len() as int);
    assert forall|i: int| 0 <= i < scripts.len() implies 0 <= #[trigger] places[i] < tags.len()
        && tags[places[i]].src is Some && !blank(tags[places[i]].src->0@) && scripts[i].node
        == tags[places[i]].node && scripts[i].src == trimmed(tags[places[i]].src->0@)
        && scripts[i].link == tags[places[i]].link by {
        assert(all[i] == places[i]);
        assert(scripts[i] == scripts_named(tags)[i]);
    }
    places
}

proof fn naming_goes_in_order(tags: Seq<ScriptTag>) -> (places: Seq<int>)
    ensures
        ({
            let scripts = scripts_named(tags);
            &&& places.len() == scripts.len()
            &&& forall|i: int|
                0 <= i < scripts.len() ==> 0 <= #[trigger] places[i] < tags.len()
                    && tags[places[i]].src is Some && !blank(tags[places[i]].src->0@)
                    && scripts[i].node == tags[places[i]].node && scripts[i].src == trimmed(
                    tags[places[i]].src->0@,
                ) && scripts[i].link == tags[places[i]].link
            &&& forall|i: int, j: int|
                0 <= i < j < scripts.len() ==> #[trigger] places[i] < #[trigger] places[j]
        }),
    decreases tags.len(),
{
    if tags.len() == 0 {
        seq![]
    } else {
        let before = naming_goes_in_order(tags.drop_last());
        match script_named(tags.last()) {
            Some(_) => before.push(tags.len() - 1),
            None => before,
        }
    }
}

/// Every script that names an address is among those a document gets, or thirty-two others
/// are.
pub proof fn a_script_that_names_an_address_is_fetched(tags: Seq<ScriptTag>, k: int)
    requires
        0 <= k < tags.len(),
        tags[k].src is Some,
        !blank(tags[k].src->0@),
    ensures
        scripts_deferred(tags).len() == 32 || exists|i: int|
            0 <= i < scripts_deferred(tags).len() && (#[trigger] scripts_deferred(tags)[i]).node
                == tags[k].node && scripts_deferred(tags)[i].src == trimmed(tags[k].src->0@),
{
    naming_leaves_none_out(tags, k);
    let all = scripts_named(tags);
    let i = choose|i: int|
        0 <= i < all.len() && (#[trigger] all[i]).node == tags[k].node && all[i].src == trimmed(
            tags[k].src->0@,
        );
    if all.len() <= 32 {
        assert(scripts_deferred(tags)[i] == all[i]);
    }
}

proof fn naming_leaves_none_out(tags: Seq<ScriptTag>, k: int)
    requires
        0 <= k < tags.len(),
        tags[k].src is Some,
        !blank(tags[k].src->0@),
    ensures
        exists|i: int|
            0 <= i < scripts_named(tags).len() && (#[trigger] scripts_named(tags)[i]).node
                == tags[k].node && scripts_named(tags)[i].src == trimmed(tags[k].src->0@),
    decreases tags.len(),
{
    let all = scripts_named(tags);
    if k < tags.len() - 1 {
        let fewer = scripts_named(tags.drop_last());
        naming_leaves_none_out(tags.drop_last(), k);
        let i = choose|i: int|
            0 <= i < fewer.len() && (#[trigger] fewer[i]).node == tags[k].node && fewer[i].src
                == trimmed(tags[k].src->0@);
        assert(all[i] == fewer[i]);
    } else {
        assert(all[all.len() - 1].node == tags[k].node);
    }
}

/// The script a parse is stopped at is fetched before those that were deferred.
pub proof fn the_script_that_is_waited_for_comes_first(tag: ScriptTag, deferred: Seq<NamedView>)
    ensures
        ({
            let scripts = scripts_in_order(Some(tag), deferred);
            let named = tag.src is Some && !blank(tag.src->0@);
            &&& named ==> {
                &&& scripts.len() == deferred.len() + 1
                &&& scripts[0].node == tag.node
                &&& scripts[0].src == trimmed(tag.src->0@)
                &&& scripts[0].link == tag.link
                &&& scripts.drop_first() == deferred
            }
            &&& !named ==> scripts == deferred
        }),
        scripts_in_order(None, deferred) == deferred,
{
    let scripts = scripts_in_order(Some(tag), deferred);
    if tag.src is Some && !blank(tag.src->0@) {
        assert(scripts.drop_first() =~= deferred);
    }
}

proof fn adopting_finds_the_same(held: Seq<Outstanding>, more: Outstanding, src: Seq<char>)
    requires
        !is_preload_of(more, src),
    ensures
        preload_of(held.push(more), src) == preload_of(held, src),
    decreases held.len(),
{
    if held.len() > 0 {
        assert(held.push(more).first() == held.first());
        assert(held.push(more).drop_first() =~= held.drop_first().push(more));
        adopting_finds_the_same(held.drop_first(), more, src);
    } else {
        assert(held.push(more).drop_first() =~= held);
    }
}

proof fn adopting_keeps_what_is_held(
    held: Seq<Outstanding>,
    scripts: Seq<NamedView>,
    src: Seq<char>,
)
    ensures
        preload_of(scripts_adopted(held, scripts).held, src) == preload_of(held, src),
        scripts_adopted(held, scripts).held.len() >= held.len(),
        forall|i: int|
            0 <= i < held.len() ==> #[trigger] scripts_adopted(held, scripts).held[i] == held[i],
    decreases scripts.len(),
{
    if scripts.len() > 0 {
        let before = scripts_adopted(held, scripts.drop_last());
        adopting_keeps_what_is_held(held, scripts.drop_last(), src);
        match preload_of(before.held, scripts.last().src) {
            Some(id) => adopting_finds_the_same(
                before.held,
                Outstanding { id, resource: PendingResource::Script(scripts.last().node) },
                src,
            ),
            None => {},
        }
    }
}

proof fn the_first_preload_is_found(held: Seq<Outstanding>, src: Seq<char>, i: int)
    requires
        0 <= i < held.len(),
        is_preload_of(held[i], src),
        forall|j: int| 0 <= j < i ==> !is_preload_of(#[trigger] held[j], src),
    ensures
        preload_of(held, src) == Some(held[i].id),
    decreases held.len(),
{
    if i > 0 {
        let rest = held.drop_first();
        assert(!is_preload_of(held[0], src));
        assert(rest[i - 1] == held[i]);
        assert forall|j: int| 0 <= j < i - 1 implies !is_preload_of(#[trigger] rest[j], src) by {
            assert(rest[j] == held[j + 1]);
        }
        the_first_preload_is_found(rest, src, i - 1);
    }
}

/// A script whose address was asked for before the document was parsed takes the answer of
/// that request, the first there is for it.
pub proof fn a_script_takes_the_answer_that_is_coming(
    held: Seq<Outstanding>,
    scripts: Seq<NamedView>,
    k: int,
    i: int,
)
    requires
        0 <= k < scripts.len(),
        0 <= i < held.len(),
        held[i].resource is ScriptSource,
        held[i].resource->ScriptSource_0@ == scripts[k].src,
        forall|j: int|
            0 <= j < i ==> !((#[trigger] held[j]).resource is ScriptSource
                && held[j].resource->ScriptSource_0@ == scripts[k].src),
    ensures
        scripts_adopted(held, scripts).held.contains(
            Outstanding { id: held[i].id, resource: PendingResource::Script(scripts[k].node) },
        ),
    decreases scripts.len(),
{
    let fewer = scripts.drop_last();
    let before = scripts_adopted(held, fewer);
    let after = scripts_adopted(held, scripts);
    let taken = Outstanding {
        id: held[i].id,
        resource: PendingResource::Script(scripts[k].node),
    };
    if k < scripts.len() - 1 {
        assert(fewer[k] == scripts[k]);
        a_script_takes_the_answer_that_is_coming(held, fewer, k, i);
        let at = choose|at: int| 0 <= at < before.held.len() && before.held[at] == taken;
        assert(after.held[at] == taken);
    } else {
        let src = scripts[k].src;
        adopting_keeps_what_is_held(held, fewer, src);
        assert forall|j: int| 0 <= j < i implies !is_preload_of(#[trigger] held[j], src) by {}
        the_first_preload_is_found(held, src, i);
        assert(after.held[after.held.len() - 1] == taken);
    }
}

proof fn no_preload_is_found(held: Seq<Outstanding>, src: Seq<char>)
    requires
        forall|j: int| 0 <= j < held.len() ==> !is_preload_of(#[trigger] held[j], src),
    ensures
        preload_of(held, src) is None,
    decreases held.len(),
{
    if held.len() > 0 {
        let rest = held.drop_first();
        assert(!is_preload_of(held[0], src));
        assert forall|j: int| 0 <= j < rest.len() implies !is_preload_of(#[trigger] rest[j], src) by {
            assert(rest[j] == held[j + 1]);
        }
        no_preload_is_found(rest, src);
    }
}

/// A script whose address has not been asked for is wanted, for its own element.
pub proof fn a_script_with_no_answer_coming_is_wanted(
    held: Seq<Outstanding>,
    scripts: Seq<NamedView>,
    k: int,
)
    requires
        0 <= k < scripts.len(),
        forall|j: int|
            0 <= j < held.len() ==> !((#[trigger] held[j]).resource is ScriptSource
                && held[j].resource->ScriptSource_0@ == scripts[k].src),
    ensures
        exists|i: int|
            0 <= i < scripts_adopted(held, scripts).wanted.len() && (#[trigger] scripts_adopted(
                held,
                scripts,
            ).wanted[i]).link == scripts[k].link && scripts_adopted(held, scripts).wanted[i].kind
                == ResourceKind::Script && scripts_adopted(held, scripts).wanted[i].resource
                == PendingResource::Script(scripts[k].node),
    decreases scripts.len(),
{
    let fewer = scripts.drop_last();
    let before = scripts_adopted(held, fewer);
    let after = scripts_adopted(held, scripts);
    if k < scripts.len() - 1 {
        assert(fewer[k] == scripts[k]);
        a_script_with_no_answer_coming_is_wanted(held, fewer, k);
        let i = choose|i: int|
            0 <= i < before.wanted.len() && (#[trigger] before.wanted[i]).link == scripts[k].link
                && before.wanted[i].kind == ResourceKind::Script && before.wanted[i].resource
                == PendingResource::Script(scripts[k].node);
        assert(after.wanted[i] == before.wanted[i]);
    } else {
        let src = scripts[k].src;
        adopting_keeps_what_is_held(held, fewer, src);
        assert forall|j: int| 0 <= j < held.len() implies !is_preload_of(
            #[trigger] held[j],
            src,
        ) by {}
        no_preload_is_found(held, src);
        assert(after.wanted[after.wanted.len() - 1].link == scripts[k].link);
    }
}

/// What is left of a document's sheets, pictures and scripts once the parse goes on is what
/// was not seen to where it stopped, in the order the document names it.
pub proof fn what_is_left_was_not_seen_to(
    sheets: Seq<SheetTag>,
    pictures: Seq<PictureTag>,
    scripts: Seq<NamedView>,
    seen: Seq<u64>,
)
    ensures
        sheets_left(sheets, seen) == sheets.filter(|tag: SheetTag| !seen.contains(tag.node)),
        pictures_left(pictures, seen) == pictures.filter(
            |tag: PictureTag| !seen.contains(tag.node),
        ),
        scripts_left(scripts, seen) == scripts.filter(
            |script: NamedView| !seen.contains(script.node),
        ),
    decreases sheets.len() + pictures.len() + scripts.len(),
{
    reveal(Seq::filter);
    if sheets.len() > 0 {
        what_is_left_was_not_seen_to(sheets.drop_last(), seq![], seq![], seen);
    } else {
        assert(sheets_left(sheets, seen) =~= sheets.filter(
            |tag: SheetTag| !seen.contains(tag.node),
        ));
    }
    if pictures.len() > 0 {
        what_is_left_was_not_seen_to(seq![], pictures.drop_last(), seq![], seen);
    } else {
        assert(pictures_left(pictures, seen) =~= pictures.filter(
            |tag: PictureTag| !seen.contains(tag.node),
        ));
    }
    if scripts.len() > 0 {
        what_is_left_was_not_seen_to(seq![], seq![], scripts.drop_last(), seen);
    } else {
        assert(scripts_left(scripts, seen) =~= scripts.filter(
            |script: NamedView| !seen.contains(script.node),
        ));
    }
}

proof fn asked_stays_asked(
    s: State,
    outstanding: Seq<Outstanding>,
    wanted: Seq<Wanted>,
    first: int,
    url: Seq<char>,
    resource: PendingResource,
)
    requires
        0 <= first,
        is_asked(s.requests, first, outstanding, url, resource),
    ensures
        ({
            let after = asking_for(s, outstanding, wanted);
            is_asked(after.state.requests, first, after.outstanding, url, resource)
        }),
{
    let after = asking_for(s, outstanding, wanted);
    asking_is_sound(s, outstanding, wanted);
    let (i, j) = choose|i: int, j: int|
        first <= i < s.requests.len() && 0 <= j < outstanding.len() && (
        #[trigger] s.requests[i]).url == url && (#[trigger] outstanding[j]).resource == resource
            && outstanding[j].id == s.requests[i].id;
    assert(after.state.requests.take(s.requests.len() as int)[i] == s.requests[i]);
    assert(after.outstanding.take(outstanding.len() as int)[j] == outstanding[j]);
    assert(after.state.requests[i].url == url);
    assert(after.outstanding[j].resource == resource);
}

proof fn more_is_waited_for(
    requests: Seq<RequestView>,
    first: int,
    outstanding: Seq<Outstanding>,
    more: Seq<Outstanding>,
    url: Seq<char>,
    resource: PendingResource,
)
    requires
        is_asked(requests, first, outstanding, url, resource),
    ensures
        is_asked(requests, first, outstanding + more, url, resource),
{
    let (i, j) = choose|i: int, j: int|
        first <= i < requests.len() && 0 <= j < outstanding.len() && (#[trigger] requests[i]).url
            == url && (#[trigger] outstanding[j]).resource == resource && outstanding[j].id
            == requests[i].id;
    assert((outstanding + more)[j] == outstanding[j]);
    assert(requests[i].url == url);
}

proof fn asked_later_is_asked(
    requests: Seq<RequestView>,
    first: int,
    later: int,
    outstanding: Seq<Outstanding>,
    url: Seq<char>,
    resource: PendingResource,
)
    requires
        first <= later,
        is_asked(requests, later, outstanding, url, resource),
    ensures
        is_asked(requests, first, outstanding, url, resource),
{
    let (i, j) = choose|i: int, j: int|
        later <= i < requests.len() && 0 <= j < outstanding.len() && (#[trigger] requests[i]).url
            == url && (#[trigger] outstanding[j]).resource == resource && outstanding[j].id
            == requests[i].id;
    assert(requests[i].url == url && outstanding[j].resource == resource);
}

/// Of the stylesheets a document links, the first thirty-two that may be reached are asked
/// for, each for its own element.
proof fn a_sheet_is_gathered(
    s: State,
    held: Seq<Outstanding>,
    sheets: Seq<SheetTag>,
    pictures: Seq<PictureTag>,
    scripts: Seq<NamedView>,
    k: int,
)
    requires
        0 <= k < sheets.len(),
        k < 32,
        !sheets[k].link.refused,
        sheets[k].link.resolved is Some,
    ensures
        ({
            let got = gathered(s, held, sheets, pictures, scripts);
            is_asked(
                got.state.requests,
                s.requests.len() as int,
                got.outstanding,
                sheets[k].link.resolved->0@,
                PendingResource::Stylesheet(sheets[k].node),
            )
        }),
{
    let n = s.requests.len() as int;
    let url = sheets[k].link.resolved->0@;
    let resource = PendingResource::Stylesheet(sheets[k].node);
    let wanted = sheets_wanted(sheets);
    assert(wanted[k] == sheet_wanted(sheets[k]));
    what_may_be_reached_is_asked_for(s, seq![], wanted, k);
    let styled = asking_for(s, seq![], wanted);
    let sorting = pictures_sorted(
        styled.state.extras.images,
        at_most(pictures, IMAGE_LIMIT as int),
    );
    let looked = with_images(styled.state, sorting.images);
    asked_stays_asked(looked, styled.outstanding, sorting.wanted, n, url, resource);
    let pictured = asking_for(looked, styled.outstanding, sorting.wanted);
    let adopting = scripts_adopted(held, scripts);
    more_is_waited_for(
        pictured.state.requests,
        n,
        pictured.outstanding,
        adopting.held,
        url,
        resource,
    );
    asked_stays_asked(
        pictured.state,
        pictured.outstanding + adopting.held,
        adopting.wanted,
        n,
        url,
        resource,
    );
}

/// Of the pictures a document shows, the first sixty-four are there or, where they may be
/// reached and pictures are loaded at all, asked for, each for its own element.
proof fn a_picture_is_gathered(
    s: State,
    held: Seq<Outstanding>,
    sheets: Seq<SheetTag>,
    pictures: Seq<PictureTag>,
    scripts: Seq<NamedView>,
    k: int,
)
    requires
        distinct(s.extras.images),
        s.settings.load_images,
        0 <= k < pictures.len(),
        k < 64,
        !pictures[k].link.refused,
        pictures[k].link.resolved is Some,
    ensures
        ({
            let got = gathered(s, held, sheets, pictures, scripts);
            let tag = pictures[k];
            let here = found(s.extras.images, tag.link.resolved->0@);
            &&& here is Some ==> exists|i: int|
                0 <= i < got.ready.len() && (#[trigger] got.ready[i]).node == tag.node
                    && got.ready[i].shown.picture == here->0 && got.ready[i].shown.density
                    == tag.density
            &&& here is None ==> is_asked(
                got.state.requests,
                s.requests.len() as int,
                got.outstanding,
                tag.link.resolved->0@,
                PendingResource::Image(tag.node, tag.src, tag.density),
            )
        }),
{
    let n = s.requests.len() as int;
    let tag = pictures[k];
    let url = tag.link.resolved->0@;
    let resource = PendingResource::Image(tag.node, tag.src, tag.density);
    let styled = asking_for(s, seq![], sheets_wanted(sheets));
    asking_is_sound(s, seq![], sheets_wanted(sheets));
    let tags = at_most(pictures, IMAGE_LIMIT as int);
    let sorting = pictures_sorted(styled.state.extras.images, tags);
    assert(tags[k] == tag);
    a_picture_is_here_or_wanted(styled.state.extras.images, tags, k);
    let got = gathered(s, held, sheets, pictures, scripts);
    assert(got.ready == sorting.ready);
    if found(s.extras.images, url) is Some {
        let i = choose|i: int|
            0 <= i < sorting.ready.len() && (#[trigger] sorting.ready[i]).node == tag.node
                && sorting.ready[i].shown.picture == found(s.extras.images, url)->0
                && sorting.ready[i].shown.density == tag.density;
        assert(got.ready[i].node == tag.node);
    } else {
        let looked = with_images(styled.state, sorting.images);
        let i = choose|i: int|
            0 <= i < sorting.wanted.len() && (#[trigger] sorting.wanted[i]).link == tag.link
                && sorting.wanted[i].kind == ResourceKind::Image && sorting.wanted[i].resource
                == resource;
        what_may_be_reached_is_asked_for(looked, styled.outstanding, sorting.wanted, i);
        let pictured = asking_for(looked, styled.outstanding, sorting.wanted);
        asked_later_is_asked(
            pictured.state.requests,
            n,
            looked.requests.len() as int,
            pictured.outstanding,
            url,
            resource,
        );
        let adopting = scripts_adopted(held, scripts);
        more_is_waited_for(
            pictured.state.requests,
            n,
            pictured.outstanding,
            adopting.held,
            url,
            resource,
        );
        asked_stays_asked(
            pictured.state,
            pictured.outstanding + adopting.held,
            adopting.wanted,
            n,
            url,
            resource,
        );
    }
}

/// Of the scripts a document gets, each that may be reached and has no answer coming is asked
/// for, for its own element.
proof fn a_script_is_gathered(
    s: State,
    held: Seq<Outstanding>,
    sheets: Seq<SheetTag>,
    pictures: Seq<PictureTag>,
    scripts: Seq<NamedView>,
    k: int,
)
    requires
        0 <= k < scripts.len(),
        !scripts[k].link.refused,
        scripts[k].link.resolved is Some,
        forall|j: int|
            0 <= j < held.len() ==> !((#[trigger] held[j]).resource is ScriptSource
                && held[j].resource->ScriptSource_0@ == scripts[k].src),
    ensures
        ({
            let got = gathered(s, held, sheets, pictures, scripts);
            is_asked(
                got.state.requests,
                s.requests.len() as int,
                got.outstanding,
                scripts[k].link.resolved->0@,
                PendingResource::Script(scripts[k].node),
            )
        }),
{
    let n = s.requests.len() as int;
    let url = scripts[k].link.resolved->0@;
    let resource = PendingResource::Script(scripts[k].node);
    let styled = asking_for(s, seq![], sheets_wanted(sheets));
    asking_is_sound(s, seq![], sheets_wanted(sheets));
    let sorting = pictures_sorted(
        styled.state.extras.images,
        at_most(pictures, IMAGE_LIMIT as int),
    );
    let looked = with_images(styled.state, sorting.images);
    asking_is_sound(looked, styled.outstanding, sorting.wanted);
    let pictured = asking_for(looked, styled.outstanding, sorting.wanted);
    let adopting = scripts_adopted(held, scripts);
    a_script_with_no_answer_coming_is_wanted(held, scripts, k);
    let i = choose|i: int|
        0 <= i < adopting.wanted.len() && (#[trigger] adopting.wanted[i]).link == scripts[k].link
            && adopting.wanted[i].kind == ResourceKind::Script && adopting.wanted[i].resource
            == resource;
    what_may_be_reached_is_asked_for(
        pictured.state,
        pictured.outstanding + adopting.held,
        adopting.wanted,
        i,
    );
    let scripted = asking_for(
        pictured.state,
        pictured.outstanding + adopting.held,
        adopting.wanted,
    );
    asked_later_is_asked(
        scripted.state.requests,
        n,
        pictured.state.requests.len() as int,
        scripted.outstanding,
        url,
        resource,
    );
}

proof fn what_is_gathered_is_waited_for(
    s: State,
    index: int,
    url: Seq<char>,
    site: Option<Seq<char>>,
    parsed: Parsed,
)
    requires
        s.wf(),
        0 <= index < s.tabs.len(),
        s.tabs[index].pending is Some,
    ensures
        ({
            let here = s.with_tab_at(index, document_here(s.tabs[index]));
            let scripts = scripts_in_order(parsed.stopped_at, scripts_deferred(parsed.deferred@));
            let got = gathered(
                here,
                outstanding_of(s.tabs[index]),
                parsed.sheets@,
                parsed.pictures@,
                scripts,
            );
            let after = document_built(s, index, url, site, parsed);
            &&& after.requests == got.state.requests
            &&& got.outstanding.len() > 0 ==> after.tabs[index].pending is Some
                && after.tabs[index].pending->0.outstanding == got.outstanding
            &&& after.tabs[index].pending is Some ==> after.tabs[index].pending->0.images
                == images_with(s.tabs[index].pending->0.images, got.ready)
        }),
{
    let here = s.with_tab_at(index, document_here(s.tabs[index]));
    let deferred = scripts_deferred(parsed.deferred@);
    let scripts = scripts_in_order(parsed.stopped_at, deferred);
    let held = outstanding_of(s.tabs[index]);
    let got = gathered(here, held, parsed.sheets@, parsed.pictures@, scripts);
    let shown = page_shown(got.state, index, url, site, parsed.title.deep_view());
    a_document_is_put_in_its_tab(s, index, url, site, parsed);
    each_tab_is_sound(s);
    a_build_is_noted(
        shown,
        index,
        got.outstanding,
        got.ready,
        nodes_of(deferred),
        parsed.runner,
        stop_of(parsed.stopped_at),
        elements_seen(parsed.sheets@, parsed.pictures@),
    );
}

/// A document's stylesheets are asked for as soon as it has come, the first thirty-two that it
/// may reach, and its load waits for each.
pub proof fn a_sheet_is_asked_for_when_its_document_comes(
    s: State,
    index: int,
    url: Seq<char>,
    site: Option<Seq<char>>,
    parsed: Parsed,
    k: int,
)
    requires
        s.wf(),
        0 <= index < s.tabs.len(),
        s.tabs[index].pending is Some,
        0 <= k < parsed.sheets@.len(),
        k < 32,
        !parsed.sheets@[k].link.refused,
        parsed.sheets@[k].link.resolved is Some,
    ensures
        ({
            let after = document_built(s, index, url, site, parsed);
            &&& after.tabs[index].pending is Some
            &&& is_asked(
                after.requests,
                s.requests.len() as int,
                after.tabs[index].pending->0.outstanding,
                parsed.sheets@[k].link.resolved->0@,
                PendingResource::Stylesheet(parsed.sheets@[k].node),
            )
        }),
{
    let here = s.with_tab_at(index, document_here(s.tabs[index]));
    let scripts = scripts_in_order(parsed.stopped_at, scripts_deferred(parsed.deferred@));
    let held = outstanding_of(s.tabs[index]);
    a_sheet_is_gathered(here, held, parsed.sheets@, parsed.pictures@, scripts, k);
    what_is_gathered_is_waited_for(s, index, url, site, parsed);
}

/// A document's pictures are there or asked for as soon as it has come, the first sixty-four
/// of them, where pictures are loaded at all and it may reach them.
pub proof fn a_picture_is_asked_for_when_its_document_comes(
    s: State,
    index: int,
    url: Seq<char>,
    site: Option<Seq<char>>,
    parsed: Parsed,
    k: int,
)
    requires
        s.wf(),
        distinct(s.extras.images),
        s.settings.load_images,
        0 <= index < s.tabs.len(),
        s.tabs[index].pending is Some,
        0 <= k < parsed.pictures@.len(),
        k < 64,
        !parsed.pictures@[k].link.refused,
        parsed.pictures@[k].link.resolved is Some,
        found(s.extras.images, parsed.pictures@[k].link.resolved->0@) is None,
    ensures
        ({
            let after = document_built(s, index, url, site, parsed);
            let tag = parsed.pictures@[k];
            &&& after.tabs[index].pending is Some
            &&& is_asked(
                after.requests,
                s.requests.len() as int,
                after.tabs[index].pending->0.outstanding,
                tag.link.resolved->0@,
                PendingResource::Image(tag.node, tag.src, tag.density),
            )
        }),
{
    let here = s.with_tab_at(index, document_here(s.tabs[index]));
    let scripts = scripts_in_order(parsed.stopped_at, scripts_deferred(parsed.deferred@));
    let held = outstanding_of(s.tabs[index]);
    a_picture_is_gathered(here, held, parsed.sheets@, parsed.pictures@, scripts, k);
    what_is_gathered_is_waited_for(s, index, url, site, parsed);
}

/// A picture that is kept is shown by its element as soon as the document has come, and is not
/// waited for.
pub proof fn a_kept_picture_is_shown_when_its_document_comes(
    s: State,
    index: int,
    url: Seq<char>,
    site: Option<Seq<char>>,
    parsed: Parsed,
    k: int,
)
    requires
        s.wf(),
        distinct(s.extras.images),
        s.settings.load_images,
        0 <= index < s.tabs.len(),
        s.tabs[index].pending is Some,
        0 <= k < parsed.pictures@.len(),
        k < 64,
        !parsed.pictures@[k].link.refused,
        parsed.pictures@[k].link.resolved is Some,
        found(s.extras.images, parsed.pictures@[k].link.resolved->0@) is Some,
        document_built(s, index, url, site, parsed).tabs[index].pending is Some,
    ensures
        document_built(s, index, url, site, parsed).tabs[index].pending->0.images.contains_key(
            parsed.pictures@[k].node,
        ),
{
    let here = s.with_tab_at(index, document_here(s.tabs[index]));
    let scripts = scripts_in_order(parsed.stopped_at, scripts_deferred(parsed.deferred@));
    let held = outstanding_of(s.tabs[index]);
    a_picture_is_gathered(here, held, parsed.sheets@, parsed.pictures@, scripts, k);
    what_is_gathered_is_waited_for(s, index, url, site, parsed);
    let got = gathered(here, held, parsed.sheets@, parsed.pictures@, scripts);
    let i = choose|i: int|
        0 <= i < got.ready.len() && (#[trigger] got.ready[i]).node == parsed.pictures@[k].node;
    whoever_is_ready_is_shown(s.tabs[index].pending->0.images, got.ready, i);
}

proof fn whoever_is_ready_is_shown(images: Map<u64, Shown>, ready: Seq<Ready>, i: int)
    requires
        0 <= i < ready.len(),
    ensures
        images_with(images, ready).contains_key(ready[i].node),
    decreases ready.len(),
{
    if i < ready.len() - 1 {
        whoever_is_ready_is_shown(images, ready.drop_last(), i);
    }
}

/// A document's scripts are asked for as soon as it has come: the one its parse is stopped at
/// and those that were deferred, where they may be reached and have no answer coming already.
pub proof fn a_script_is_asked_for_when_its_document_comes(
    s: State,
    index: int,
    url: Seq<char>,
    site: Option<Seq<char>>,
    parsed: Parsed,
    k: int,
)
    requires
        s.wf(),
        0 <= index < s.tabs.len(),
        s.tabs[index].pending is Some,
        ({
            let scripts = scripts_in_order(parsed.stopped_at, scripts_deferred(parsed.deferred@));
            &&& 0 <= k < scripts.len()
            &&& !scripts[k].link.refused
            &&& scripts[k].link.resolved is Some
            &&& forall|j: int|
                0 <= j < s.tabs[index].pending->0.outstanding.len() ==> !((
                #[trigger] s.tabs[index].pending->0.outstanding[j]).resource is ScriptSource
                    && s.tabs[index].pending->0.outstanding[j].resource->ScriptSource_0@
                    == scripts[k].src)
        }),
    ensures
        ({
            let scripts = scripts_in_order(parsed.stopped_at, scripts_deferred(parsed.deferred@));
            let after = document_built(s, index, url, site, parsed);
            &&& after.tabs[index].pending is Some
            &&& is_asked(
                after.requests,
                s.requests.len() as int,
                after.tabs[index].pending->0.outstanding,
                scripts[k].link.resolved->0@,
                PendingResource::Script(scripts[k].node),
            )
        }),
{
    let here = s.with_tab_at(index, document_here(s.tabs[index]));
    let scripts = scripts_in_order(parsed.stopped_at, scripts_deferred(parsed.deferred@));
    let held = outstanding_of(s.tabs[index]);
    a_script_is_gathered(here, held, parsed.sheets@, parsed.pictures@, scripts, k);
    what_is_gathered_is_waited_for(s, index, url, site, parsed);
}

/// The elements of a document that are seen to when it comes are those of its first thirty-two
/// stylesheets and of its first sixty-four pictures, and no others.
pub proof fn what_is_seen_to_is_the_first_of_each(
    sheets: Seq<SheetTag>,
    pictures: Seq<PictureTag>,
    node: u64,
)
    ensures
        elements_seen(sheets, pictures).contains(node) <==> ((exists|i: int|
            0 <= i < sheets.len() && i < 32 && (#[trigger] sheets[i]).node == node) || (exists|
            i: int,
        |
            0 <= i < pictures.len() && i < 64 && (#[trigger] pictures[i]).node == node)),
{
    let first = at_most(sheets, 32);
    let shown = at_most(pictures, 64);
    let seen = elements_seen(sheets, pictures);
    assert(seen.len() == first.len() + shown.len());
    assert forall|i: int| 0 <= i < first.len() implies seen[i] == first[i].node && first[i]
        == sheets[i] by {}
    assert forall|i: int| 0 <= i < shown.len() implies seen[first.len() + i] == shown[i].node
        && shown[i] == pictures[i] by {}
    if seen.contains(node) {
        let at = choose|at: int| 0 <= at < seen.len() && seen[at] == node;
        if at < first.len() {
            assert(sheets[at].node == node);
        } else {
            assert(pictures[at - first.len()].node == node);
        }
    }
    if exists|i: int| 0 <= i < sheets.len() && i < 32 && (#[trigger] sheets[i]).node == node {
        let i = choose|i: int|
            0 <= i < sheets.len() && i < 32 && (#[trigger] sheets[i]).node == node;
        assert(seen[i] == node);
    }
    if exists|i: int| 0 <= i < pictures.len() && i < 64 && (#[trigger] pictures[i]).node == node {
        let i = choose|i: int|
            0 <= i < pictures.len() && i < 64 && (#[trigger] pictures[i]).node == node;
        assert(seen[first.len() + i] == node);
    }
}

/// Once the whole of a document is parsed its load runs, after the scripts it was to run
/// already, those that were not known then, in their order. Its page's code is alive where it
/// was at either time, its title is the one the document has in the end, and where the tab is
/// and has been does not change.
pub proof fn a_document_that_is_parsed_runs_the_rest_after(s: State, index: int, parsed: Parsed)
    requires
        0 <= index < s.tabs.len(),
        s.tabs[index].pending is Some,
    ensures
        ({
            let tab = s.tabs[index];
            let load = tab.pending->0;
            let after = document_parsed(s, index, parsed);
            let now = after.tabs[index];
            let rest = scripts_deferred(parsed.deferred@).filter(
                |script: NamedView| !load.script_order.contains(script.node),
            );
            &&& now.pending is Some
            &&& now.pending->0.script_order.len() == load.script_order.len() + rest.len()
            &&& forall|i: int|
                0 <= i < load.script_order.len() ==> #[trigger] now.pending->0.script_order[i]
                    == load.script_order[i]
            &&& forall|i: int|
                0 <= i < rest.len() ==> now.pending->0.script_order[load.script_order.len() + i]
                    == (#[trigger] rest[i]).node
            &&& now.pending->0.runner == (load.runner || parsed.runner)
            &&& parsed.title is Some ==> now.title == parsed.title->0@
            &&& parsed.title is None ==> now.title == tab.title
            &&& now.url == tab.url && now.history == tab.history && now.position == tab.position
            &&& after.visits == s.visits
            &&& forall|i: int|
                0 <= i < s.tabs.len() && i != index ==> after.tabs[i] == #[trigger] s.tabs[i]
        }),
{
    let load = s.tabs[index].pending->0;
    let here = s.with_tab_at(index, document_here(s.tabs[index]));
    let sheets = sheets_left(at_most(parsed.sheets@, 32), load.seen);
    let pictures = pictures_left(at_most(parsed.pictures@, 64), load.seen);
    let scripts = scripts_left(scripts_deferred(parsed.deferred@), load.script_order);
    what_is_left_was_not_seen_to(
        seq![],
        seq![],
        scripts_deferred(parsed.deferred@),
        load.script_order,
    );
    asking_touches_no_tab(here, load.outstanding, sheets, pictures, scripts);
}

proof fn the_rest_is_waited_for(s: State, index: int, parsed: Parsed)
    requires
        0 <= index < s.tabs.len(),
        s.tabs[index].pending is Some,
    ensures
        ({
            let load = s.tabs[index].pending->0;
            let here = s.with_tab_at(index, document_here(s.tabs[index]));
            let got = gathered(
                here,
                load.outstanding,
                sheets_left(at_most(parsed.sheets@, 32), load.seen),
                pictures_left(at_most(parsed.pictures@, 64), load.seen),
                scripts_left(scripts_deferred(parsed.deferred@), load.script_order),
            );
            let after = document_parsed(s, index, parsed);
            &&& after.requests == got.state.requests
            &&& after.tabs[index].pending is Some
            &&& after.tabs[index].pending->0.outstanding == got.outstanding
        }),
{
    let load = s.tabs[index].pending->0;
    let here = s.with_tab_at(index, document_here(s.tabs[index]));
    asking_touches_no_tab(
        here,
        load.outstanding,
        sheets_left(at_most(parsed.sheets@, 32), load.seen),
        pictures_left(at_most(parsed.pictures@, 64), load.seen),
        scripts_left(scripts_deferred(parsed.deferred@), load.script_order),
    );
}

/// A script that became known while the rest of its document was parsed is asked for then,
/// where it may be reached and no answer for it is coming.
pub proof fn a_script_of_the_rest_is_asked_for(s: State, index: int, parsed: Parsed, k: int)
    requires
        0 <= index < s.tabs.len(),
        s.tabs[index].pending is Some,
        ({
            let load = s.tabs[index].pending->0;
            let all = scripts_deferred(parsed.deferred@);
            &&& 0 <= k < all.len()
            &&& !load.script_order.contains(all[k].node)
            &&& !all[k].link.refused
            &&& all[k].link.resolved is Some
            &&& forall|j: int|
                0 <= j < load.outstanding.len() ==> !((
                #[trigger] load.outstanding[j]).resource is ScriptSource
                    && load.outstanding[j].resource->ScriptSource_0@ == all[k].src)
        }),
    ensures
        ({
            let script = scripts_deferred(parsed.deferred@)[k];
            let after = document_parsed(s, index, parsed);
            &&& after.tabs[index].pending is Some
            &&& is_asked(
                after.requests,
                s.requests.len() as int,
                after.tabs[index].pending->0.outstanding,
                script.link.resolved->0@,
                PendingResource::Script(script.node),
            )
        }),
{
    let load = s.tabs[index].pending->0;
    let here = s.with_tab_at(index, document_here(s.tabs[index]));
    let all = scripts_deferred(parsed.deferred@);
    let at = a_script_not_run_is_left(all, load.script_order, k);
    the_rest_is_waited_for(s, index, parsed);
    a_script_is_gathered(
        here,
        load.outstanding,
        sheets_left(at_most(parsed.sheets@, 32), load.seen),
        pictures_left(at_most(parsed.pictures@, 64), load.seen),
        scripts_left(all, load.script_order),
        at,
    );
}

proof fn a_script_not_run_is_left(scripts: Seq<NamedView>, order: Seq<u64>, k: int) -> (at: int)
    requires
        0 <= k < scripts.len(),
        !order.contains(scripts[k].node),
    ensures
        0 <= at < scripts_left(scripts, order).len(),
        scripts_left(scripts, order)[at] == scripts[k],
    decreases scripts.len(),
{
    if k < scripts.len() - 1 {
        a_script_not_run_is_left(scripts.drop_last(), order, k)
    } else {
        scripts_left(scripts, order).len() - 1
    }
}

/// A picture that became known while the rest of its document was parsed is asked for then,
/// where pictures are loaded, it may be reached and it is not kept.
pub proof fn a_picture_of_the_rest_is_asked_for(s: State, index: int, parsed: Parsed, k: int)
    requires
        distinct(s.extras.images),
        s.settings.load_images,
        0 <= index < s.tabs.len(),
        s.tabs[index].pending is Some,
        0 <= k < parsed.pictures@.len(),
        k < 64,
        !s.tabs[index].pending->0.seen.contains(parsed.pictures@[k].node),
        !parsed.pictures@[k].link.refused,
        parsed.pictures@[k].link.resolved is Some,
        found(s.extras.images, parsed.pictures@[k].link.resolved->0@) is None,
    ensures
        ({
            let tag = parsed.pictures@[k];
            let after = document_parsed(s, index, parsed);
            &&& after.tabs[index].pending is Some
            &&& is_asked(
                after.requests,
                s.requests.len() as int,
                after.tabs[index].pending->0.outstanding,
                tag.link.resolved->0@,
                PendingResource::Image(tag.node, tag.src, tag.density),
            )
        }),
{
    let load = s.tabs[index].pending->0;
    let here = s.with_tab_at(index, document_here(s.tabs[index]));
    let all = at_most(parsed.pictures@, 64);
    assert(all[k] == parsed.pictures@[k]);
    let at = a_picture_not_seen_is_left(all, load.seen, k);
    no_more_pictures_are_left(all, load.seen);
    the_rest_is_waited_for(s, index, parsed);
    a_picture_is_gathered(
        here,
        load.outstanding,
        sheets_left(at_most(parsed.sheets@, 32), load.seen),
        pictures_left(all, load.seen),
        scripts_left(scripts_deferred(parsed.deferred@), load.script_order),
        at,
    );
}

proof fn a_picture_not_seen_is_left(tags: Seq<PictureTag>, seen: Seq<u64>, k: int) -> (at: int)
    requires
        0 <= k < tags.len(),
        !seen.contains(tags[k].node),
    ensures
        0 <= at < pictures_left(tags, seen).len(),
        pictures_left(tags, seen)[at] == tags[k],
    decreases tags.len(),
{
    if k < tags.len() - 1 {
        a_picture_not_seen_is_left(tags.drop_last(), seen, k)
    } else {
        pictures_left(tags, seen).len() - 1
    }
}

proof fn no_more_pictures_are_left(tags: Seq<PictureTag>, seen: Seq<u64>)
    ensures
        pictures_left(tags, seen).len() <= tags.len(),
    decreases tags.len(),
{
    if tags.len() > 0 {
        no_more_pictures_are_left(tags.drop_last(), seen);
    }
}

} // verus!
