//! What a page finds it needs once it has been styled: backgrounds, faces, and the
//! pictures its elements choose again for another window.
//!
//! A background or a face is named by a rule, so what a page wants is known only on the
//! way to a frame. These are asked for after one, and arrive for a frame after that.

use vstd::prelude::*;

use crate::asking::{allowed, request_put, subresource_url, Link};
use crate::browser::{
    BackgroundFetch, Browser, Command, ExtrasView, FontRequest, PictureFetch, ResourceKind, State,
};
use crate::building::{at_most, with_images, IMAGE_LIMIT};
use crate::images::{after_get, found};

verus! {

/// How many faces one page may bring with it.
pub const FONT_LIMIT: usize = 16;

/// A background a page's rules name, and where that leads.
#[derive(Debug)]
pub struct BackgroundTag {
    pub url: String,
    pub link: Link,
}

/// A face a page's rules bring with them, and where each of its sources leads, in the
/// order the rule lists them.
#[derive(Debug)]
pub struct FaceTag {
    pub family: String,
    pub sources: Vec<Link>,
}

/// The picture an element shows now, beside the one it would choose.
#[derive(Debug)]
pub struct Showing {
    pub src: String,
    pub same_density: bool,
}

/// The picture an element would choose for the window there is now.
#[derive(Debug)]
pub struct ChoiceTag {
    pub node: u64,
    pub src: String,
    pub density: u32,
    pub link: Link,
    /// What it shows, if its picture has come. One that never loaded is the load's
    /// business, and asking for it here would fetch it a second time.
    pub showing: Option<Showing>,
}

/// The backgrounds of `tags` that have not been asked for.
pub open spec fn not_yet_asked(requests: Seq<Seq<char>>, tags: Seq<BackgroundTag>) -> Seq<
    BackgroundTag,
>
    decreases tags.len(),
{
    if tags.len() == 0 {
        seq![]
    } else if requests.contains(tags.last().url@) {
        not_yet_asked(requests, tags.drop_last())
    } else {
        not_yet_asked(requests, tags.drop_last()).push(tags.last())
    }
}

/// A browser that will not ask for the background at `url` again.
pub open spec fn background_noted(s: State, url: Seq<char>) -> State {
    State {
        extras: ExtrasView {
            background_requests: s.extras.background_requests.push(url),
            ..s.extras
        },
        ..s
    }
}

/// A browser that waits for a background under `id`.
pub open spec fn background_awaited(s: State, id: u64, fetch: BackgroundFetch) -> State {
    State {
        extras: ExtrasView {
            background_fetches: s.extras.background_fetches.insert(id, fetch),
            ..s.extras
        },
        ..s
    }
}

/// A browser that has seen to one background of the page in the tab at `index`: it was
/// here already, or may not be fetched, or has been asked for.
pub open spec fn background_sought(s: State, index: usize, tag: BackgroundTag) -> State {
    let looked = with_images(s, after_get(s.extras.images, tag.url@));
    match found(s.extras.images, tag.url@) {
        Some(picture) => background_noted(
            looked.telling(Command::SetPicture(s.tabs[index as int].id, tag.url, picture)),
            tag.url@,
        ),
        None => match allowed(tag.link) {
            None => background_noted(looked, tag.url@),
            Some(target) => background_awaited(
                background_noted(request_put(looked, target, ResourceKind::Image), tag.url@),
                s.next_request,
                BackgroundFetch { tab: s.tabs[index as int].id, url: tag.url },
            ),
        },
    }
}

/// A browser that has seen to several backgrounds in turn.
pub open spec fn all_backgrounds_sought(s: State, index: usize, tags: Seq<BackgroundTag>) -> State
    decreases tags.len(),
{
    if tags.len() == 0 {
        s
    } else {
        background_sought(
            all_backgrounds_sought(s, index, tags.drop_last()),
            index,
            tags.last(),
        )
    }
}

/// A browser that has asked for the backgrounds of the page in the tab at `index`.
pub open spec fn backgrounds_fetched(s: State, index: usize, tags: Seq<BackgroundTag>) -> State {
    if !s.settings.load_images || index >= s.tabs.len() || s.tabs[index as int].page is None {
        s
    } else {
        all_backgrounds_sought(
            s,
            index,
            at_most(not_yet_asked(s.extras.background_requests, tags), IMAGE_LIMIT as int),
        )
    }
}

/// The first address of a face that the page may reach.
pub open spec fn face_source(sources: Seq<Link>) -> Option<Seq<char>>
    decreases sources.len(),
{
    if sources.len() == 0 {
        None
    } else {
        match allowed(sources.first()) {
            Some(url) => Some(url),
            None => face_source(sources.drop_first()),
        }
    }
}

/// A browser that will not ask for this face from there again, and waits for it under
/// `id`.
pub open spec fn face_awaited(s: State, id: u64, family: String, url: Seq<char>) -> State {
    State {
        extras: ExtrasView {
            font_requests: s.extras.font_requests.push((family@, url)),
            font_fetches: s.extras.font_fetches.insert(id, family),
            ..s.extras
        },
        ..s
    }
}

/// A browser that has seen to one face.
pub open spec fn face_sought(s: State, face: FaceTag) -> State {
    match face_source(face.sources@) {
        None => s,
        Some(url) => if s.extras.font_requests.contains((face.family@, url)) {
            s
        } else {
            face_awaited(
                request_put(s, url, ResourceKind::Stylesheet),
                s.next_request,
                face.family,
                url,
            )
        },
    }
}

/// A browser that has seen to several faces in turn.
pub open spec fn all_faces_sought(s: State, faces: Seq<FaceTag>) -> State
    decreases faces.len(),
{
    if faces.len() == 0 {
        s
    } else {
        face_sought(all_faces_sought(s, faces.drop_last()), faces.last())
    }
}

/// A browser that has asked for the faces of the page in the tab at `index`.
pub open spec fn fonts_fetched(s: State, index: usize, faces: Seq<FaceTag>) -> State {
    if index >= s.tabs.len() || s.tabs[index as int].page is None {
        s
    } else {
        all_faces_sought(s, at_most(faces, FONT_LIMIT as int))
    }
}

/// Whether an element would choose another picture than the one it shows.
pub open spec fn chooses_anew(tag: ChoiceTag) -> bool {
    tag.showing matches Some(now) && (now.src@ != tag.src@ || !now.same_density)
}

/// A browser that waits for an element's picture under `id`.
pub open spec fn picture_awaited(s: State, id: u64, fetch: PictureFetch) -> State {
    State {
        extras: ExtrasView { picture_fetches: s.extras.picture_fetches.insert(id, fetch), ..s.extras },
        ..s
    }
}

/// A browser that has seen to the picture of one element of the page in the tab at
/// `index`.
pub open spec fn choice_sought(s: State, index: usize, tag: ChoiceTag) -> State {
    if !chooses_anew(tag) {
        s
    } else {
        match allowed(tag.link) {
            None => s,
            Some(target) => {
                let looked = with_images(s, after_get(s.extras.images, target));
                match found(s.extras.images, target) {
                    Some(picture) => looked.telling(
                        Command::SetImage(
                            s.tabs[index as int].id,
                            tag.node,
                            tag.src,
                            picture,
                            tag.density,
                        ),
                    ),
                    None => picture_awaited(
                        request_put(looked, target, ResourceKind::Image),
                        s.next_request,
                        PictureFetch {
                            tab: s.tabs[index as int].id,
                            node: tag.node,
                            src: tag.src,
                            density: tag.density,
                        },
                    ),
                }
            },
        }
    }
}

/// A browser that has seen to the pictures of several elements in turn.
pub open spec fn all_choices_sought(s: State, index: usize, tags: Seq<ChoiceTag>) -> State
    decreases tags.len(),
{
    if tags.len() == 0 {
        s
    } else {
        choice_sought(all_choices_sought(s, index, tags.drop_last()), index, tags.last())
    }
}

/// A browser that has asked again for the pictures of the page in the tab at `index`,
/// unless pictures are turned off.
pub open spec fn choices_fetched(s: State, index: usize, tags: Seq<ChoiceTag>) -> State {
    if !s.settings.load_images || index >= s.tabs.len() || s.tabs[index as int].page is None {
        s
    } else {
        all_choices_sought(s, index, at_most(tags, IMAGE_LIMIT as int))
    }
}

/// Whether the pictures on screen were chosen for another window than this.
pub open spec fn window_is_new(s: State, window: (u32, u32)) -> bool {
    s.settings.load_images && s.extras.picture_window != Some(window)
}

/// A browser that chooses pictures for this window from now on.
pub open spec fn window_noted(s: State, window: (u32, u32)) -> State {
    State { extras: ExtrasView { picture_window: Some(window), ..s.extras }, ..s }
}

fn holds_url(urls: &Vec<String>, url: &String) -> (answer: bool)
    ensures
        answer == urls.deep_view().contains(url@),
{
    let ghost all = urls.deep_view();
    let mut at: usize = 0;
    while at < urls.len()
        invariant
            at <= urls.len(),
            all == urls.deep_view(),
            forall|i: int| 0 <= i < at ==> all[i] != url@,
        decreases urls.len() - at,
    {
        if urls[at] == *url {
            assert(all[at as int] == url@);
            return true;
        }
        at = at + 1;
    }
    false
}

fn find_source(sources: &Vec<Link>) -> (url: Option<String>)
    ensures
        url.deep_view() == face_source(sources@),
{
    let mut at: usize = 0;
    assert(sources@.skip(0) =~= sources@);
    while at < sources.len()
        invariant
            at <= sources.len(),
            face_source(sources@) == face_source(sources@.skip(at as int)),
        decreases sources.len() - at,
    {
        proof {
            assert(sources@.skip(at as int).first() == sources@[at as int]);
            assert(sources@.skip(at as int).drop_first() =~= sources@.skip(at + 1));
        }
        match subresource_url(&sources[at]) {
            Some(url) => {
                return Some(url);
            },
            None => {},
        }
        at = at + 1;
    }
    None
}

impl Browser {
    /// The backgrounds of `tags` that have not been asked for.
    fn fresh_backgrounds(&self, tags: Vec<BackgroundTag>) -> (fresh: Vec<BackgroundTag>)
        ensures
            fresh@ == not_yet_asked(self@.extras.background_requests, tags@),
    {
        proof {
            reveal(Browser::state);
        }
        let ghost all = tags@;
        let ghost asked = self@.extras.background_requests;
        let count: usize = tags.len();
        let mut left: Vec<BackgroundTag> = tags;
        let mut fresh: Vec<BackgroundTag> = Vec::new();
        let mut done: usize = 0;
        proof {
            assert(all.skip(0) =~= all);
            assert(all.take(0) =~= seq![]);
        }
        while done < count
            invariant
                done <= count,
                count == all.len(),
                left@ == all.skip(done as int),
                asked == self.extras.background_requests.deep_view(),
                fresh@ == not_yet_asked(asked, all.take(done as int)),
            decreases count - done,
        {
            let tag = left.remove(0);
            proof {
                assert(tag == all[done as int]);
                assert(left@ =~= all.skip(done + 1));
                let longer = all.take(done + 1);
                assert(longer.drop_last() =~= all.take(done as int));
                assert(longer.last() == tag);
            }
            if !holds_url(&self.extras.background_requests, &tag.url) {
                fresh.push(tag);
            }
            done = done + 1;
        }
        assert(all.take(count as int) =~= all);
        fresh
    }

    /// Do not ask for the background at `url` again.
    fn note_background(&mut self, url: String)
        requires
            old(self).wf(),
        ensures
            final(self).wf(),
            final(self)@ == background_noted(old(self)@, url@),
    {
        proof {
            reveal(Browser::state);
        }
        let ghost before = self@.extras.background_requests;
        self.extras.background_requests.push(url);
        assert(self@.extras.background_requests =~= before.push(url@));
    }

    /// Wait for a background under `id`.
    fn await_background(&mut self, id: u64, fetch: BackgroundFetch)
        requires
            old(self).wf(),
        ensures
            final(self).wf(),
            final(self)@ == background_awaited(old(self)@, id, fetch),
    {
        proof {
            reveal(Browser::state);
        }
        let ghost before = self@.extras.background_fetches;
        let _ = self.extras.background_fetches.insert(id, fetch);
        assert(self@.extras.background_fetches =~= before.insert(id, fetch));
    }

    /// See to one background of the page in the tab at `index`.
    fn seek_background(&mut self, index: usize, tag: BackgroundTag)
        requires
            old(self).wf(),
            index < old(self)@.tabs.len(),
        ensures
            final(self).wf(),
            final(self)@ == background_sought(old(self)@, index, tag),
            final(self)@.tabs == old(self)@.tabs,
    {
        let id = self.tab_at(index).id;
        match self.cached_picture(&tag.url) {
            Some(picture) => {
                self.tell(Command::SetPicture(id, tag.url.clone(), picture));
                self.note_background(tag.url);
            },
            None => match subresource_url(&tag.link) {
                None => self.note_background(tag.url),
                Some(target) => {
                    let number: u64 = self.request(target, ResourceKind::Image);
                    self.note_background(tag.url.clone());
                    self.await_background(number, BackgroundFetch { tab: id, url: tag.url });
                },
            },
        }
    }

    /// Ask for the backgrounds that the page in the tab at `index` has found it needs.
    ///
    /// One that may not be fetched is noted all the same: it must not be asked for again
    /// on every frame.
    pub fn fetch_backgrounds(&mut self, index: usize, tags: Vec<BackgroundTag>)
        requires
            old(self).wf(),
        ensures
            final(self).wf(),
            final(self)@ == backgrounds_fetched(old(self)@, index, tags@),
    {
        if !self.loads_images() || index >= self.tab_count() || self.tab_at(index).page.is_none() {
            return;
        }
        let ghost before = self@;
        let fresh = self.fresh_backgrounds(tags);
        let ghost named = fresh@;
        let mut left: Vec<BackgroundTag> = fresh;
        left.truncate(IMAGE_LIMIT);
        let ghost all = left@;
        let count: usize = left.len();
        let mut done: usize = 0;
        proof {
            assert(all =~= at_most(named, IMAGE_LIMIT as int));
            assert(all.skip(0) =~= all);
            assert(all.take(0) =~= seq![]);
        }
        while done < count
            invariant
                done <= count,
                count == all.len(),
                left@ == all.skip(done as int),
                self.wf(),
                index < before.tabs.len(),
                self@.tabs == before.tabs,
                self@ == all_backgrounds_sought(before, index, all.take(done as int)),
            decreases count - done,
        {
            let tag = left.remove(0);
            proof {
                assert(tag == all[done as int]);
                assert(left@ =~= all.skip(done + 1));
                let longer = all.take(done + 1);
                assert(longer.drop_last() =~= all.take(done as int));
                assert(longer.last() == tag);
            }
            self.seek_background(index, tag);
            done = done + 1;
        }
        assert(all.take(count as int) =~= all);
    }

    /// Whether a face has been asked for from there.
    fn face_was_asked(&self, family: &String, url: &String) -> (answer: bool)
        ensures
            answer == self@.extras.font_requests.contains((family@, url@)),
    {
        proof {
            reveal(Browser::state);
        }
        let ghost all = self.extras.font_requests.deep_view();
        let mut at: usize = 0;
        while at < self.extras.font_requests.len()
            invariant
                at <= self.extras.font_requests.len(),
                all == self.extras.font_requests.deep_view(),
                all == self@.extras.font_requests,
                forall|i: int| 0 <= i < at ==> all[i] != (family@, url@),
            decreases self.extras.font_requests.len() - at,
        {
            let asked = &self.extras.font_requests[at];
            if asked.family == *family && asked.url == *url {
                assert(all[at as int] == (family@, url@));
                return true;
            }
            at = at + 1;
        }
        false
    }

    /// Wait for a face under `id`, and do not ask for it from there again.
    fn await_face(&mut self, id: u64, family: String, url: String)
        requires
            old(self).wf(),
        ensures
            final(self).wf(),
            final(self)@ == face_awaited(old(self)@, id, family, url@),
    {
        proof {
            reveal(Browser::state);
        }
        let ghost asked = self@.extras.font_requests;
        let ghost waiting = self@.extras.font_fetches;
        self.extras.font_requests.push(FontRequest { family: family.clone(), url });
        let _ = self.extras.font_fetches.insert(id, family);
        assert(self@.extras.font_requests =~= asked.push((family@, url@)));
        assert(self@.extras.font_fetches =~= waiting.insert(id, family));
    }

    /// See to one face.
    fn seek_face(&mut self, face: FaceTag)
        requires
            old(self).wf(),
        ensures
            final(self).wf(),
            final(self)@ == face_sought(old(self)@, face),
    {
        match find_source(&face.sources) {
            None => {},
            Some(url) => if !self.face_was_asked(&face.family, &url) {
                let number: u64 = self.request(url.clone(), ResourceKind::Stylesheet);
                self.await_face(number, face.family, url);
            },
        }
    }

    /// Ask for the faces that the stylesheets of the page in the tab at `index` bring with
    /// them.
    ///
    /// The first address that may be reached is as far as the order in the rule is
    /// honoured, and one face is asked for from one address once.
    pub fn fetch_fonts(&mut self, index: usize, faces: Vec<FaceTag>)
        requires
            old(self).wf(),
        ensures
            final(self).wf(),
            final(self)@ == fonts_fetched(old(self)@, index, faces@),
    {
        if index >= self.tab_count() || self.tab_at(index).page.is_none() {
            return;
        }
        let ghost before = self@;
        let ghost named = faces@;
        let mut left: Vec<FaceTag> = faces;
        left.truncate(FONT_LIMIT);
        let ghost all = left@;
        let count: usize = left.len();
        let mut done: usize = 0;
        proof {
            assert(all =~= at_most(named, FONT_LIMIT as int));
            assert(all.skip(0) =~= all);
            assert(all.take(0) =~= seq![]);
        }
        while done < count
            invariant
                done <= count,
                count == all.len(),
                left@ == all.skip(done as int),
                self.wf(),
                self@ == all_faces_sought(before, all.take(done as int)),
            decreases count - done,
        {
            let face = left.remove(0);
            proof {
                assert(face == all[done as int]);
                assert(left@ =~= all.skip(done + 1));
                let longer = all.take(done + 1);
                assert(longer.drop_last() =~= all.take(done as int));
                assert(longer.last() == face);
            }
            self.seek_face(face);
            done = done + 1;
        }
        assert(all.take(count as int) =~= all);
    }

    /// Note which window pictures are chosen for, and say whether it is another one.
    ///
    /// Asking every document which pictures it wants walks every document, so the
    /// question is put only where the window is not the one they were chosen for.
    pub fn window_changed(&mut self, window: (u32, u32)) -> (changed: bool)
        requires
            old(self).wf(),
        ensures
            final(self).wf(),
            changed == window_is_new(old(self)@, window),
            final(self)@ == if changed {
                window_noted(old(self)@, window)
            } else {
                old(self)@
            },
    {
        proof {
            reveal(Browser::state);
        }
        if !self.settings.load_images {
            return false;
        }
        match self.extras.picture_window {
            Some(known) => {
                if known.0 == window.0 && known.1 == window.1 {
                    return false;
                }
            },
            None => {},
        }
        self.extras.picture_window = Some(window);
        true
    }

    /// Wait for an element's picture under `id`.
    fn await_picture(&mut self, id: u64, fetch: PictureFetch)
        requires
            old(self).wf(),
        ensures
            final(self).wf(),
            final(self)@ == picture_awaited(old(self)@, id, fetch),
    {
        proof {
            reveal(Browser::state);
        }
        let ghost before = self@.extras.picture_fetches;
        let _ = self.extras.picture_fetches.insert(id, fetch);
        assert(self@.extras.picture_fetches =~= before.insert(id, fetch));
    }

    /// See to the picture of one element of the page in the tab at `index`.
    fn seek_choice(&mut self, index: usize, tag: ChoiceTag)
        requires
            old(self).wf(),
            index < old(self)@.tabs.len(),
        ensures
            final(self).wf(),
            final(self)@ == choice_sought(old(self)@, index, tag),
            final(self)@.tabs == old(self)@.tabs,
    {
        let anew = match &tag.showing {
            Some(now) => now.src != tag.src || !now.same_density,
            None => false,
        };
        if !anew {
            return;
        }
        match subresource_url(&tag.link) {
            None => {},
            Some(target) => {
                let id = self.tab_at(index).id;
                match self.cached_picture(&target) {
                    Some(picture) => {
                        self.tell(
                            Command::SetImage(id, tag.node, tag.src, picture, tag.density),
                        );
                    },
                    None => {
                        let number: u64 = self.request(target, ResourceKind::Image);
                        self.await_picture(
                            number,
                            PictureFetch {
                                tab: id,
                                node: tag.node,
                                src: tag.src,
                                density: tag.density,
                            },
                        );
                    },
                }
            },
        }
    }

    /// Ask again for the pictures that elements of the page in the tab at `index` choose
    /// for the window there is now.
    pub fn rechoose_pictures(&mut self, index: usize, tags: Vec<ChoiceTag>)
        requires
            old(self).wf(),
        ensures
            final(self).wf(),
            final(self)@ == choices_fetched(old(self)@, index, tags@),
    {
        if !self.loads_images() || index >= self.tab_count() || self.tab_at(index).page.is_none() {
            return;
        }
        let ghost before = self@;
        let ghost named = tags@;
        let mut left: Vec<ChoiceTag> = tags;
        left.truncate(IMAGE_LIMIT);
        let ghost all = left@;
        let count: usize = left.len();
        let mut done: usize = 0;
        proof {
            assert(all =~= at_most(named, IMAGE_LIMIT as int));
            assert(all.skip(0) =~= all);
            assert(all.take(0) =~= seq![]);
        }
        while done < count
            invariant
                done <= count,
                count == all.len(),
                left@ == all.skip(done as int),
                self.wf(),
                index < before.tabs.len(),
                self@.tabs == before.tabs,
                self@ == all_choices_sought(before, index, all.take(done as int)),
            decreases count - done,
        {
            let tag = left.remove(0);
            proof {
                assert(tag == all[done as int]);
                assert(left@ =~= all.skip(done + 1));
                let longer = all.take(done + 1);
                assert(longer.drop_last() =~= all.take(done as int));
                assert(longer.last() == tag);
            }
            self.seek_choice(index, tag);
            done = done + 1;
        }
        assert(all.take(count as int) =~= all);
    }
}

/// Every background that has been seen to is one that is not asked for again, whether it
/// was here, may not be fetched, or is on its way.
pub proof fn a_background_is_asked_for_once(s: State, index: usize, tags: Seq<BackgroundTag>, k: int)
    requires
        0 <= k < tags.len(),
    ensures
        all_backgrounds_sought(s, index, tags).extras.background_requests.contains(tags[k].url@),
        not_yet_asked(
            all_backgrounds_sought(s, index, tags).extras.background_requests,
            seq![tags[k]],
        ).len() == 0,
    decreases tags.len(),
{
    let before = all_backgrounds_sought(s, index, tags.drop_last());
    let after = all_backgrounds_sought(s, index, tags);
    let asked = before.extras.background_requests;
    assert(after.extras.background_requests == asked.push(tags.last().url@));
    assert(asked.push(tags.last().url@).last() == tags.last().url@);
    if k < tags.len() - 1 {
        a_background_is_asked_for_once(s, index, tags.drop_last(), k);
        let at = choose|at: int| 0 <= at < asked.len() && asked[at] == tags[k].url@;
        assert(after.extras.background_requests[at] == tags[k].url@);
    } else {
        assert(after.extras.background_requests[asked.len() as int] == tags[k].url@);
    }
    let one = seq![tags[k]];
    assert(one.last() == tags[k]);
    assert(not_yet_asked(after.extras.background_requests, one.drop_last()).len() == 0);
}

/// One face is asked for from one address once: seeing to it again does nothing.
pub proof fn a_face_is_asked_for_once(s: State, face: FaceTag)
    ensures
        face_sought(face_sought(s, face), face) == face_sought(s, face),
{
    match face_source(face.sources@) {
        None => {},
        Some(url) => {
            let asked = s.extras.font_requests;
            let pair = (face.family@, url);
            if !asked.contains(pair) {
                assert(asked.push(pair)[asked.len() as int] == pair);
                assert(asked.push(pair).contains(pair));
            }
        },
    }
}

/// With pictures turned off no background is asked for, no window is one to choose pictures
/// for again, and no picture that an element chooses is asked for.
pub proof fn with_pictures_turned_off_none_is_fetched(
    s: State,
    index: usize,
    tags: Seq<BackgroundTag>,
    choices: Seq<ChoiceTag>,
    window: (u32, u32),
)
    requires
        !s.settings.load_images,
    ensures
        backgrounds_fetched(s, index, tags) == s,
        !window_is_new(s, window),
        choices_fetched(s, index, choices) == s,
{
}

/// The backgrounds asked for are those of the page that have not been asked for before, in the
/// order its rules name them.
pub proof fn what_was_asked_for_is_not_asked_for_again(
    requests: Seq<Seq<char>>,
    tags: Seq<BackgroundTag>,
)
    ensures
        not_yet_asked(requests, tags) == tags.filter(
            |tag: BackgroundTag| !requests.contains(tag.url@),
        ),
    decreases tags.len(),
{
    reveal(Seq::filter);
    if tags.len() > 0 {
        what_was_asked_for_is_not_asked_for_again(requests, tags.drop_last());
    } else {
        assert(not_yet_asked(requests, tags) =~= tags.filter(
            |tag: BackgroundTag| !requests.contains(tag.url@),
        ));
    }
}

/// Whether one picture more is on the wire, for `url` and under the number that was next.
pub open spec fn asked_for_picture(before: State, after: State, url: Seq<char>) -> bool {
    &&& after.requests.len() == before.requests.len() + 1
    &&& after.requests.drop_last() == before.requests
    &&& after.requests.last().id == before.next_request
    &&& after.requests.last().url == url
    &&& after.requests.last().kind == ResourceKind::Image
}

/// A background that is kept is given to its page at once, one that may not be reached is not
/// fetched, and any other is asked for, for that page and under the name its rules give it.
/// Whichever it is, it has been seen to.
pub proof fn a_background_is_given_asked_for_or_left(s: State, index: usize, tag: BackgroundTag)
    requires
        index < s.tabs.len(),
    ensures
        ({
            let after = background_sought(s, index, tag);
            let tab = s.tabs[index as int].id;
            let here = found(s.extras.images, tag.url@);
            let reachable = !tag.link.refused && tag.link.resolved is Some;
            &&& after.tabs == s.tabs
            &&& after.extras.background_requests == s.extras.background_requests.push(tag.url@)
            &&& here is Some ==> after.requests == s.requests && after.told == s.told.push(
                Command::SetPicture(tab, tag.url, here->0),
            ) && after.extras.background_fetches == s.extras.background_fetches
            &&& here is None && !reachable ==> after.requests == s.requests && after.told == s.told
                && after.extras.background_fetches == s.extras.background_fetches
            &&& here is None && reachable ==> {
                &&& asked_for_picture(s, after, tag.link.resolved->0@)
                &&& after.told == s.told
                &&& after.extras.background_fetches == s.extras.background_fetches.insert(
                    s.next_request,
                    BackgroundFetch { tab, url: tag.url },
                )
            }
        }),
{
    let after = background_sought(s, index, tag);
    if found(s.extras.images, tag.url@) is None && !tag.link.refused && tag.link.resolved is Some {
        assert(after.requests.drop_last() =~= s.requests);
    }
}

/// A face is asked for from the first of its sources that the page may reach, once, and is
/// waited for under its family. One with no such source is not.
pub proof fn a_face_comes_from_the_first_source_it_may(s: State, face: FaceTag, k: int)
    requires
        0 <= k < face.sources@.len(),
        !face.sources@[k].refused,
        face.sources@[k].resolved is Some,
        forall|j: int|
            0 <= j < k ==> (#[trigger] face.sources@[j]).refused || face.sources@[j].resolved is None,
    ensures
        ({
            let after = face_sought(s, face);
            let url = face.sources@[k].resolved->0@;
            let known = s.extras.font_requests.contains((face.family@, url));
            &&& known ==> after == s
            &&& !known ==> {
                &&& after.requests.len() == s.requests.len() + 1
                &&& after.requests.drop_last() == s.requests
                &&& after.requests.last().url == url
                &&& after.requests.last().id == s.next_request
                &&& after.requests.last().kind == ResourceKind::Stylesheet
                &&& after.extras.font_fetches == s.extras.font_fetches.insert(
                    s.next_request,
                    face.family,
                )
                &&& after.extras.font_requests == s.extras.font_requests.push((face.family@, url))
            }
        }),
{
    the_first_source_is_taken(face.sources@, k);
    let after = face_sought(s, face);
    let url = face.sources@[k].resolved->0@;
    if !s.extras.font_requests.contains((face.family@, url)) {
        assert(after.requests.drop_last() =~= s.requests);
    }
}

proof fn the_first_source_is_taken(sources: Seq<Link>, k: int)
    requires
        0 <= k < sources.len(),
        !sources[k].refused,
        sources[k].resolved is Some,
        forall|j: int| 0 <= j < k ==> (#[trigger] sources[j]).refused || sources[j].resolved is None,
    ensures
        face_source(sources) == Some(sources[k].resolved->0@),
    decreases sources.len(),
{
    if k > 0 {
        let rest = sources.drop_first();
        assert(sources[0].refused || sources[0].resolved is None);
        assert forall|j: int| 0 <= j < k - 1 implies (#[trigger] rest[j]).refused
            || rest[j].resolved is None by {
            assert(rest[j] == sources[j + 1]);
        }
        the_first_source_is_taken(rest, k - 1);
    }
}

/// An element that would show another picture than it does, or the same for another density,
/// is given the one that is kept, or has it asked for under its own name and density. One that
/// would show what it shows is left alone, and so is one that may not reach what it would.
pub proof fn an_element_gets_the_picture_it_chooses(s: State, index: usize, tag: ChoiceTag)
    requires
        index < s.tabs.len(),
    ensures
        ({
            let after = choice_sought(s, index, tag);
            let tab = s.tabs[index as int].id;
            let anew = tag.showing is Some && (tag.showing->0.src@ != tag.src@
                || !tag.showing->0.same_density);
            let reachable = !tag.link.refused && tag.link.resolved is Some;
            let here = found(s.extras.images, tag.link.resolved->0@);
            &&& after.tabs == s.tabs
            &&& !anew || !reachable ==> after == s
            &&& anew && reachable && here is Some ==> after.requests == s.requests && after.told
                == s.told.push(
                Command::SetImage(tab, tag.node, tag.src, here->0, tag.density),
            )
            &&& anew && reachable && here is None ==> {
                &&& asked_for_picture(s, after, tag.link.resolved->0@)
                &&& after.told == s.told
                &&& after.extras.picture_fetches == s.extras.picture_fetches.insert(
                    s.next_request,
                    PictureFetch { tab, node: tag.node, src: tag.src, density: tag.density },
                )
            }
        }),
{
    let after = choice_sought(s, index, tag);
    let reachable = !tag.link.refused && tag.link.resolved is Some;
    if chooses_anew(tag) && reachable && found(s.extras.images, tag.link.resolved->0@) is None {
        assert(after.requests.drop_last() =~= s.requests);
    }
}

/// A page is seen to as far as the limits go: the first sixty-four of its backgrounds that
/// have not been seen to, the first sixteen of its faces and the first sixty-four of its
/// elements; a tab with no page is not seen to at all.
pub proof fn a_page_is_seen_to_as_far_as_the_limits_go(
    s: State,
    index: usize,
    backgrounds: Seq<BackgroundTag>,
    faces: Seq<FaceTag>,
    choices: Seq<ChoiceTag>,
)
    ensures
        index >= s.tabs.len() || s.tabs[index as int].page is None ==> {
            &&& backgrounds_fetched(s, index, backgrounds) == s
            &&& fonts_fetched(s, index, faces) == s
            &&& choices_fetched(s, index, choices) == s
        },
        index < s.tabs.len() && s.tabs[index as int].page is Some && faces.len() >= 16
            ==> fonts_fetched(s, index, faces) == all_faces_sought(s, faces.take(16)),
        index < s.tabs.len() && s.tabs[index as int].page is Some && faces.len() <= 16
            ==> fonts_fetched(s, index, faces) == all_faces_sought(s, faces),
        index < s.tabs.len() && s.tabs[index as int].page is Some && s.settings.load_images
            && choices.len() >= 64 ==> choices_fetched(s, index, choices) == all_choices_sought(
            s,
            index,
            choices.take(64),
        ),
        index < s.tabs.len() && s.tabs[index as int].page is Some && s.settings.load_images
            && choices.len() <= 64 ==> choices_fetched(s, index, choices) == all_choices_sought(
            s,
            index,
            choices,
        ),
        index < s.tabs.len() && s.tabs[index as int].page is Some && s.settings.load_images
            && not_yet_asked(s.extras.background_requests, backgrounds).len() <= 64
            ==> backgrounds_fetched(s, index, backgrounds) == all_backgrounds_sought(
            s,
            index,
            not_yet_asked(s.extras.background_requests, backgrounds),
        ),
{
    if faces.len() == 16 {
        assert(faces.take(16) =~= faces);
    }
    if choices.len() == 64 {
        assert(choices.take(64) =~= choices);
    }
}

/// The pictures on screen were chosen for another window than this one unless the last that
/// was noted is this.
pub proof fn a_window_is_new_until_it_is_noted(s: State, window: (u32, u32), other: (u32, u32))
    requires
        s.settings.load_images,
    ensures
        !window_is_new(window_noted(s, window), window),
        other != window ==> window_is_new(window_noted(s, window), other),
        s.extras.picture_window is None ==> window_is_new(s, window),
{
}

} // verus!
