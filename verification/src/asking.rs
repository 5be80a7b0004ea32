//! Asking for what a page is made of: one request per address, and none that the page
//! may not make.

use vstd::prelude::*;

use crate::browser::{Browser, CacheMode, Request, RequestView, ResourceKind, State};
use crate::tab::{following, take_number, Outstanding, PendingResource};

verus! {

/// Where an address written on a page leads, as the address rules read it.
#[derive(Debug)]
pub struct Link {
    /// The address it resolves to against the page's own, if it resolves.
    pub resolved: Option<String>,
    /// Whether the rules can read that address and refuse it to the page.
    pub refused: bool,
}

/// The address a link is fetched from, or none where the page may not reach it.
pub open spec fn allowed(link: Link) -> Option<Seq<char>> {
    if link.refused {
        None
    } else {
        link.resolved.deep_view()
    }
}

/// One thing a page wants.
#[derive(Debug)]
pub struct Wanted {
    pub link: Link,
    pub resource: PendingResource,
    pub kind: ResourceKind,
}

/// The address a subresource is actually fetched from, or `None` if the page may not
/// reach it.
///
/// A document fetched over the network may not reach a file, the same rule that governs
/// where it may navigate: a subresource is a request the page chose to make.
pub fn subresource_url(link: &Link) -> (url: Option<String>)
    ensures
        url.deep_view() == allowed(*link),
{
    if link.refused {
        return None;
    }
    match &link.resolved {
        Some(url) => Some(url.clone()),
        None => None,
    }
}

/// How many of what a document asked for are left out by `limit`: none unless it asked
/// for more.
pub open spec fn over_limit(asked: usize, limit: usize) -> Option<usize> {
    if asked > limit {
        Some((asked - limit) as usize)
    } else {
        None
    }
}

/// How many things a document asked for beyond the limit, if it asked for more than the
/// limit allows: what is worth noting in a log.
pub fn report_limit(asked: usize, limit: usize) -> (left_out: Option<usize>)
    ensures
        left_out == over_limit(asked, limit),
{
    if asked > limit {
        Some(asked - limit)
    } else {
        None
    }
}

/// What one page's asking has come to: what has been put on the wire, under which number
/// each address was, and what each number feeds.
pub struct Asking {
    pub state: State,
    pub asked: Seq<(Seq<char>, u64)>,
    pub outstanding: Seq<Outstanding>,
}

/// The number an address was asked for under, if it was.
pub open spec fn asked_under(asked: Seq<(Seq<char>, u64)>, url: Seq<char>) -> Option<u64>
    decreases asked.len(),
{
    if asked.len() == 0 {
        None
    } else if asked.last().0 == url {
        Some(asked.last().1)
    } else {
        asked_under(asked.drop_last(), url)
    }
}

/// A browser with one more request on the wire.
pub open spec fn request_put(s: State, url: Seq<char>, kind: ResourceKind) -> State {
    State {
        requests: s.requests.push(
            RequestView { id: s.next_request, url, kind, body: None, cache: CacheMode::Default },
        ),
        next_request: following(s.next_request),
        ..s
    }
}

/// Asking once more, for one thing.
pub open spec fn asked_for(asking: Asking, wanted: Wanted) -> Asking {
    let s = asking.state;
    if wanted.kind == ResourceKind::Image && !s.settings.load_images {
        asking
    } else {
        match allowed(wanted.link) {
            None => asking,
            Some(url) => match asked_under(asking.asked, url) {
                Some(id) => Asking {
                    outstanding: asking.outstanding.push(
                        Outstanding { id, resource: wanted.resource },
                    ),
                    ..asking
                },
                None => Asking {
                    state: request_put(s, url, wanted.kind),
                    asked: asking.asked.push((url, s.next_request)),
                    outstanding: asking.outstanding.push(
                        Outstanding { id: s.next_request, resource: wanted.resource },
                    ),
                },
            },
        }
    }
}

/// Asking for each of several things in turn.
pub open spec fn asked_for_all(asking: Asking, wanted: Seq<Wanted>) -> Asking
    decreases wanted.len(),
{
    if wanted.len() == 0 {
        asking
    } else {
        asked_for(asked_for_all(asking, wanted.drop_last()), wanted.last())
    }
}

/// What a browser's asking comes to when a page wants `wanted`, on top of what is
/// already outstanding.
pub open spec fn asking_for(s: State, outstanding: Seq<Outstanding>, wanted: Seq<Wanted>) -> Asking {
    asked_for_all(Asking { state: s, asked: seq![], outstanding }, wanted)
}

/// One address, and the number it was asked for under.
struct Asked {
    url: String,
    id: u64,
}

impl DeepView for Asked {
    type V = (Seq<char>, u64);

    closed spec fn deep_view(&self) -> (Seq<char>, u64) {
        (self.url@, self.id)
    }
}

fn find_asked(asked: &Vec<Asked>, url: &String) -> (id: Option<u64>)
    ensures
        id == asked_under(asked.deep_view(), url@),
{
    let ghost all = asked.deep_view();
    let mut left: usize = asked.len();
    assert(all.take(all.len() as int) =~= all);
    while left > 0
        invariant
            left <= asked.len(),
            all == asked.deep_view(),
            asked_under(all, url@) == asked_under(all.take(left as int), url@),
        decreases left,
    {
        proof {
            assert(all.take(left as int).last() == all[left - 1]);
            assert(all.take(left as int).drop_last() =~= all.take(left - 1));
        }
        if asked[left - 1].url == *url {
            return Some(asked[left - 1].id);
        }
        left = left - 1;
    }
    assert(all.take(0).len() == 0);
    None
}

impl Browser {
    /// Whether pictures are fetched at all.
    pub fn loads_images(&self) -> (answer: bool)
        ensures
            answer == self@.settings.load_images,
    {
        proof {
            reveal(Browser::state);
        }
        self.settings.load_images
    }

    /// Put a request for `url` on the wire, and say which number it went out under.
    pub fn request(&mut self, url: String, kind: ResourceKind) -> (id: u64)
        requires
            old(self).wf(),
        ensures
            final(self).wf(),
            final(self)@ == request_put(old(self)@, url@, kind),
            id == old(self)@.next_request,
    {
        proof {
            reveal(Browser::state);
        }
        let ghost before = self@;
        let id: u64 = take_number(&mut self.next_request);
        self.requests.push(Request { id, url, kind, body: None, cache: CacheMode::Default });
        assert(self@.requests =~= before.requests.push(
            RequestView { id, url: url@, kind, body: None, cache: CacheMode::Default },
        ));
        id
    }

    /// Ask for a page's subresources, recording which nodes each answer feeds.
    ///
    /// One request per address: a page that names the same picture in ten places is
    /// asking for it once. A picture the preferences say not to load is not asked for at
    /// all: one that is fetched and then not shown has already cost the reader their
    /// bandwidth and told the server they were here.
    pub fn request_subresources(
        &mut self,
        outstanding: Vec<Outstanding>,
        wanted: Vec<Wanted>,
    ) -> (feeding: Vec<Outstanding>)
        requires
            old(self).wf(),
        ensures
            final(self).wf(),
            final(self)@ == asking_for(old(self)@, outstanding@, wanted@).state,
            feeding@ == asking_for(old(self)@, outstanding@, wanted@).outstanding,
            final(self)@.tabs == old(self)@.tabs,
            final(self)@.active == old(self)@.active,
    {
        let ghost start = Asking { state: self@, asked: seq![], outstanding: outstanding@ };
        let ghost all = wanted@;
        let count: usize = wanted.len();
        let mut feeding: Vec<Outstanding> = outstanding;
        let mut asked: Vec<Asked> = Vec::new();
        let mut left: Vec<Wanted> = wanted;
        let mut done: usize = 0;
        proof {
            assert(asked.deep_view() =~= seq![]);
            assert(all.take(0) =~= seq![]);
            assert(all.skip(0) =~= all);
        }
        while done < count
            invariant
                done <= count,
                count == all.len(),
                left@ == all.skip(done as int),
                self.wf(),
                ({
                    let now = asked_for_all(start, all.take(done as int));
                    &&& self@ == now.state
                    &&& asked.deep_view() == now.asked
                    &&& feeding@ == now.outstanding
                }),
            decreases count - done,
        {
            let ghost now = asked_for_all(start, all.take(done as int));
            let one = left.remove(0);
            proof {
                assert(one == all[done as int]);
                assert(left@ =~= all.skip(done + 1));
                let longer = all.take(done + 1);
                assert(longer.drop_last() =~= all.take(done as int));
                assert(longer.last() == one);
            }
            done = done + 1;
            if !(one.kind == ResourceKind::Image && !self.loads_images()) {
                match subresource_url(&one.link) {
                    None => {},
                    Some(url) => {
                        match find_asked(&asked, &url) {
                            Some(id) => {
                                feeding.push(Outstanding { id, resource: one.resource });
                            },
                            None => {
                                let ghost known = asked.deep_view();
                                let id: u64 = self.request(url.clone(), one.kind);
                                asked.push(Asked { url, id });
                                assert(asked.deep_view() =~= known.push((url@, id)));
                                feeding.push(Outstanding { id, resource: one.resource });
                            },
                        }
                    },
                }
            }
        }
        proof {
            assert(all.take(count as int) =~= all);
            asking_is_sound(start.state, start.outstanding, all);
        }
        feeding
    }
}

/// One address is asked for once, however many elements want it: two requests put on the
/// wire by one page's asking are for different addresses.
pub proof fn one_request_per_address(s: State, outstanding: Seq<Outstanding>, wanted: Seq<Wanted>)
    ensures
        ({
            let after = asking_for(s, outstanding, wanted).state.requests;
            &&& after.len() >= s.requests.len()
            &&& after.take(s.requests.len() as int) == s.requests
            &&& forall|i: int, j: int|
                s.requests.len() <= i < j < after.len() ==> (#[trigger] after[i]).url != (
                #[trigger] after[j]).url
        }),
{
    asking_is_sound(s, outstanding, wanted);
}

/// What asking keeps: everything asked for is on the wire once, under the number noted
/// for it, and nothing else of the browser changes.
pub open spec fn asking_sound(s: State, outstanding: Seq<Outstanding>, asking: Asking) -> bool {
    let n = s.requests.len();
    let requests = asking.state.requests;
    &&& asking.state == (State {
        requests,
        next_request: asking.state.next_request,
        ..s
    })
    &&& requests.len() == n + asking.asked.len()
    &&& requests.take(n as int) == s.requests
    &&& forall|i: int|
        0 <= i < asking.asked.len() ==> {
            &&& (#[trigger] asking.asked[i]).0 == requests[n + i].url
            &&& asking.asked[i].1 == requests[n + i].id
        }
    &&& forall|i: int, j: int|
        0 <= i < j < asking.asked.len() ==> (#[trigger] asking.asked[i]).0 != (
        #[trigger] asking.asked[j]).0
    &&& asking.outstanding.len() >= outstanding.len()
    &&& asking.outstanding.take(outstanding.len() as int) == outstanding
    &&& forall|k: int|
        outstanding.len() <= k < asking.outstanding.len() ==> exists|i: int|
            n <= i < requests.len() && (#[trigger] requests[i]).id == (
            #[trigger] asking.outstanding[k]).id
}

/// Asking for what a page wants is sound in every respect above.
pub proof fn asking_is_sound(s: State, outstanding: Seq<Outstanding>, wanted: Seq<Wanted>)
    ensures
        asking_sound(s, outstanding, asking_for(s, outstanding, wanted)),
        ({
            let after = asking_for(s, outstanding, wanted).state.requests;
            forall|i: int, j: int|
                s.requests.len() <= i < j < after.len() ==> (#[trigger] after[i]).url != (
                #[trigger] after[j]).url
        }),
    decreases wanted.len(),
{
    let n = s.requests.len() as int;
    if wanted.len() == 0 {
        assert(s.requests.take(n) =~= s.requests);
        assert(outstanding.take(outstanding.len() as int) =~= outstanding);
    } else {
        asking_is_sound(s, outstanding, wanted.drop_last());
        let before = asking_for(s, outstanding, wanted.drop_last());
        let after = asking_for(s, outstanding, wanted);
        let one = wanted.last();
        if !(one.kind == ResourceKind::Image && !s.settings.load_images) && allowed(one.link)
            is Some {
            let url = allowed(one.link)->0;
            let requests = after.state.requests;
            assert(after.outstanding.drop_last() =~= before.outstanding);
            match asked_under(before.asked, url) {
                Some(id) => {
                    asked_under_is_there(before.asked, url);
                    let i = choose|i: int|
                        0 <= i < before.asked.len() && (#[trigger] before.asked[i]).1 == id;
                    assert(requests[n + i].id == id);
                    assert forall|k: int|
                        outstanding.len() <= k < after.outstanding.len() implies exists|i: int|
                        n <= i < requests.len() && (#[trigger] requests[i]).id == (
                        #[trigger] after.outstanding[k]).id by {
                        if k < before.outstanding.len() {
                            assert(after.outstanding[k] == before.outstanding[k]);
                        } else {
                            assert(requests[n + i].id == after.outstanding[k].id);
                        }
                    }
                },
                None => {
                    asked_under_is_nowhere(before.asked, url);
                    assert(requests.take(n) =~= before.state.requests.take(n));
                    let last = requests.len() - 1;
                    assert(requests[last].id == before.state.next_request);
                    assert forall|i: int| 0 <= i < after.asked.len() implies {
                        &&& (#[trigger] after.asked[i]).0 == requests[n + i].url
                        &&& after.asked[i].1 == requests[n + i].id
                    } by {
                        if i < before.asked.len() {
                            assert(after.asked[i] == before.asked[i]);
                            assert(requests[n + i] == before.state.requests[n + i]);
                        }
                    }
                    assert forall|i: int, j: int| 0 <= i < j < after.asked.len() implies (
                    #[trigger] after.asked[i]).0 != (#[trigger] after.asked[j]).0 by {
                        assert(after.asked[i] == before.asked[i]);
                        if j < before.asked.len() {
                            assert(after.asked[j] == before.asked[j]);
                        }
                    }
                    assert forall|k: int|
                        outstanding.len() <= k < after.outstanding.len() implies exists|i: int|
                        n <= i < requests.len() && (#[trigger] requests[i]).id == (
                        #[trigger] after.outstanding[k]).id by {
                        if k < before.outstanding.len() {
                            assert(after.outstanding[k] == before.outstanding[k]);
                            let i = choose|i: int|
                                n <= i < before.state.requests.len() && (
                                #[trigger] before.state.requests[i]).id == before.outstanding[k].id;
                            assert(requests[i] == before.state.requests[i]);
                        } else {
                            assert(requests[last].id == after.outstanding[k].id);
                        }
                    }
                },
            }
            assert(after.outstanding.take(outstanding.len() as int)
                =~= before.outstanding.take(outstanding.len() as int));
        }
    }
    let after = asking_for(s, outstanding, wanted);
    let requests = after.state.requests;
    assert forall|i: int, j: int| n <= i < j < requests.len() implies (#[trigger] requests[i]).url
        != (#[trigger] requests[j]).url by {
        assert(after.asked[i - n].0 == requests[i].url);
        assert(after.asked[j - n].0 == requests[j].url);
    }
}

proof fn asked_under_is_there(asked: Seq<(Seq<char>, u64)>, url: Seq<char>)
    requires
        asked_under(asked, url) is Some,
    ensures
        exists|i: int|
            0 <= i < asked.len() && (#[trigger] asked[i]).1 == asked_under(asked, url)->0
                && asked[i].0 == url,
    decreases asked.len(),
{
    if asked.last().0 == url {
        assert(asked[asked.len() - 1].1 == asked_under(asked, url)->0);
    } else {
        let shorter = asked.drop_last();
        asked_under_is_there(shorter, url);
        let i = choose|i: int|
            0 <= i < shorter.len() && (#[trigger] shorter[i]).1 == asked_under(shorter, url)->0
                && shorter[i].0 == url;
        assert(asked[i] == shorter[i]);
    }
}

proof fn asked_under_is_nowhere(asked: Seq<(Seq<char>, u64)>, url: Seq<char>)
    requires
        asked_under(asked, url) is None,
    ensures
        forall|i: int| 0 <= i < asked.len() ==> (#[trigger] asked[i]).0 != url,
    decreases asked.len(),
{
    if asked.len() > 0 {
        let shorter = asked.drop_last();
        asked_under_is_nowhere(shorter, url);
        assert forall|i: int| 0 <= i < asked.len() implies (#[trigger] asked[i]).0 != url by {
            if i < shorter.len() {
                assert(asked[i] == shorter[i]);
            }
        }
    }
}

/// With pictures turned off none is asked for: every request such a browser's page puts
/// on the wire is for something else.
pub proof fn pictures_turned_off_are_not_asked_for(
    s: State,
    outstanding: Seq<Outstanding>,
    wanted: Seq<Wanted>,
)
    requires
        !s.settings.load_images,
    ensures
        ({
            let after = asking_for(s, outstanding, wanted).state.requests;
            forall|i: int|
                s.requests.len() <= i < after.len() ==> (#[trigger] after[i]).kind
                    != ResourceKind::Image
        }),
    decreases wanted.len(),
{
    asking_is_sound(s, outstanding, wanted);
    if wanted.len() > 0 {
        pictures_turned_off_are_not_asked_for(s, outstanding, wanted.drop_last());
        asking_is_sound(s, outstanding, wanted.drop_last());
        let before = asking_for(s, outstanding, wanted.drop_last()).state.requests;
        let after = asking_for(s, outstanding, wanted).state.requests;
        assert forall|i: int| s.requests.len() <= i < after.len() implies (#[trigger] after[i]).kind
            != ResourceKind::Image by {
            if i < before.len() {
                assert(after[i] == before[i]);
            }
        }
    }
}

/// What the page may not reach is not asked for: every address put on the wire is one
/// that some wanted thing leads to and that the rules do not refuse, and it is asked for as
/// that kind of thing, with nothing to send.
pub proof fn what_is_refused_is_not_asked_for(
    s: State,
    outstanding: Seq<Outstanding>,
    wanted: Seq<Wanted>,
)
    ensures
        ({
            let after = asking_for(s, outstanding, wanted).state.requests;
            forall|i: int|
                s.requests.len() <= i < after.len() ==> exists|k: int|
                    0 <= k < wanted.len() && allowed((#[trigger] wanted[k]).link) == Some(
                        (#[trigger] after[i]).url,
                    ) && after[i].kind == wanted[k].kind && after[i].body is None && after[i].cache
                        == CacheMode::Default
        }),
    decreases wanted.len(),
{
    if wanted.len() > 0 {
        let fewer = wanted.drop_last();
        what_is_refused_is_not_asked_for(s, outstanding, fewer);
        asking_is_sound(s, outstanding, fewer);
        let before = asking_for(s, outstanding, fewer).state.requests;
        let after = asking_for(s, outstanding, wanted).state.requests;
        assert forall|i: int| s.requests.len() <= i < after.len() implies exists|k: int|
            0 <= k < wanted.len() && allowed((#[trigger] wanted[k]).link) == Some(
                (#[trigger] after[i]).url,
            ) && after[i].kind == wanted[k].kind && after[i].body is None && after[i].cache
                == CacheMode::Default by {
            if i < before.len() {
                assert(after[i] == before[i]);
                let k = choose|k: int|
                    0 <= k < fewer.len() && allowed((#[trigger] fewer[k]).link) == Some(
                        before[i].url,
                    ) && before[i].kind == fewer[k].kind && before[i].body is None
                        && before[i].cache == CacheMode::Default;
                assert(wanted[k] == fewer[k]);
            } else {
                assert(allowed(wanted[wanted.len() - 1].link) == Some(after[i].url));
            }
        }
    }
}

/// Whether a request for `url`, of those from the one at `first` on, is outstanding for
/// `resource`.
pub open spec fn is_asked(
    requests: Seq<RequestView>,
    first: int,
    outstanding: Seq<Outstanding>,
    url: Seq<char>,
    resource: PendingResource,
) -> bool {
    exists|i: int, j: int|
        first <= i < requests.len() && 0 <= j < outstanding.len() && (#[trigger] requests[i]).url
            == url && (#[trigger] outstanding[j]).resource == resource && outstanding[j].id
            == requests[i].id
}

/// Everything a page wants and may reach is asked for, and waited for.
pub proof fn what_may_be_reached_is_asked_for(
    s: State,
    outstanding: Seq<Outstanding>,
    wanted: Seq<Wanted>,
    k: int,
)
    requires
        0 <= k < wanted.len(),
        allowed(wanted[k].link) is Some,
        wanted[k].kind != ResourceKind::Image || s.settings.load_images,
    ensures
        ({
            let after = asking_for(s, outstanding, wanted);
            is_asked(
                after.state.requests,
                s.requests.len() as int,
                after.outstanding,
                allowed(wanted[k].link)->0,
                wanted[k].resource,
            )
        }),
    decreases wanted.len(),
{
    let n = s.requests.len() as int;
    let url = allowed(wanted[k].link)->0;
    let fewer = wanted.drop_last();
    asking_is_sound(s, outstanding, fewer);
    asking_is_sound(s, outstanding, wanted);
    let before = asking_for(s, outstanding, fewer);
    let after = asking_for(s, outstanding, wanted);
    let requests = after.state.requests;
    if k == wanted.len() - 1 {
        let j = after.outstanding.len() - 1;
        match asked_under(before.asked, url) {
            Some(id) => {
                asked_under_is_there(before.asked, url);
                let i = choose|i: int|
                    0 <= i < before.asked.len() && (#[trigger] before.asked[i]).1 == id
                        && before.asked[i].0 == url;
                assert(requests[n + i].url == url);
                assert(after.outstanding[j].id == requests[n + i].id);
            },
            None => {
                let i = requests.len() - 1;
                assert(requests[i].url == url);
                assert(after.outstanding[j].id == requests[i].id);
            },
        }
    } else {
        what_may_be_reached_is_asked_for(s, outstanding, fewer, k);
        let (i, j) = choose|i: int, j: int|
            n <= i < before.state.requests.len() && 0 <= j < before.outstanding.len() && (
            #[trigger] before.state.requests[i]).url == url && (
            #[trigger] before.outstanding[j]).resource == wanted[k].resource
                && before.outstanding[j].id == before.state.requests[i].id;
        assert(requests[i] == before.state.requests[i]);
        assert(after.outstanding[j] == before.outstanding[j]);
    }
}

/// A link leads where it resolves to, unless the rules refuse it.
pub proof fn a_refused_link_leads_nowhere(link: Link)
    ensures
        link.refused ==> allowed(link) is None,
        !link.refused && link.resolved is None ==> allowed(link) is None,
        !link.refused && link.resolved is Some ==> allowed(link) == Some(link.resolved->0@),
{
}

/// What a limit leaves out is what was asked for beyond it.
pub proof fn a_limit_leaves_out_what_is_beyond_it(asked: usize, limit: usize)
    ensures
        over_limit(asked, limit) is None <==> asked <= limit,
        asked > limit ==> over_limit(asked, limit)->0 + limit == asked,
{
}

/// Each request has a number of its own: they are given one after the other, from the one that
/// was next.
pub proof fn each_request_has_a_number_of_its_own(
    s: State,
    outstanding: Seq<Outstanding>,
    wanted: Seq<Wanted>,
)
    requires
        s.next_request + wanted.len() < u64::MAX,
    ensures
        ({
            let after = asking_for(s, outstanding, wanted).state;
            let n = s.requests.len();
            &&& n <= after.requests.len() <= n + wanted.len()
            &&& after.next_request == s.next_request + (after.requests.len() - n)
            &&& forall|i: int|
                n <= i < after.requests.len() ==> (#[trigger] after.requests[i]).id
                    == s.next_request + (i - n)
        }),
    decreases wanted.len(),
{
    if wanted.len() > 0 {
        let fewer = wanted.drop_last();
        each_request_has_a_number_of_its_own(s, outstanding, fewer);
        let before = asking_for(s, outstanding, fewer).state;
        let after = asking_for(s, outstanding, wanted).state;
        let n = s.requests.len();
        assert forall|i: int| n <= i < after.requests.len() implies (#[trigger] after.requests[i]).id
            == s.next_request + (i - n) by {
            if i < before.requests.len() {
                assert(after.requests[i] == before.requests[i]);
            }
        }
    }
}

} // verus!
