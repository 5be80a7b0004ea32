//! Decoded pictures, kept between loads.

use vstd::prelude::*;

verus! {

/// How many bytes of decoded pictures are kept between loads.
///
/// Decoded, not encoded: a 200 KB photograph is 8 MB of pixels, and it is the pixels
/// this holds. Sixty-four megabytes is a few screenfuls of them.
pub const IMAGE_CACHE_BUDGET: usize = 67_108_864;

/// A decoded picture: the number the engine keeps it under, and how many bytes of
/// pixels it is.
#[derive(Clone, Copy, Debug, PartialEq, Eq, Structural)]
pub struct Picture {
    pub handle: u64,
    pub bytes: usize,
}

/// One picture and the address it came from.
pub struct Kept {
    pub url: String,
    pub picture: Picture,
}

impl View for Kept {
    type V = (Seq<char>, Picture);

    open spec fn view(&self) -> (Seq<char>, Picture) {
        (self.url@, self.picture)
    }
}

impl DeepView for Kept {
    type V = (Seq<char>, Picture);

    open spec fn deep_view(&self) -> (Seq<char>, Picture) {
        self@
    }
}

/// Decoded pictures, kept by address.
///
/// A page that shows the same picture twice decodes it once, and going back to a
/// page that has been visited does not decode its pictures again. Least recently
/// used goes first, because the page in front of the reader is the one whose
/// pictures are worth keeping.
pub struct ImageCache {
    /// Oldest use first; the end is the most recently used.
    entries: Vec<Kept>,
    /// How many bytes the entries hold between them.
    bytes: usize,
}

/// How many bytes a run of entries holds.
pub open spec fn total_bytes(entries: Seq<(Seq<char>, Picture)>) -> int
    decreases entries.len(),
{
    if entries.len() == 0 {
        0
    } else {
        total_bytes(entries.drop_last()) + entries.last().1.bytes
    }
}

/// Whether something is kept under `url`.
pub open spec fn keeps(entries: Seq<(Seq<char>, Picture)>, url: Seq<char>) -> bool {
    exists|i: int| 0 <= i < entries.len() && (#[trigger] entries[i]).0 == url
}

/// Where `url` is kept: its first place.
pub open spec fn place_of(entries: Seq<(Seq<char>, Picture)>, url: Seq<char>) -> int {
    choose|i: int|
        0 <= i < entries.len() && (#[trigger] entries[i]).0 == url && forall|j: int|
            0 <= j < i ==> (#[trigger] entries[j]).0 != url
}

/// The entries without the one kept under `url`.
pub open spec fn without(entries: Seq<(Seq<char>, Picture)>, url: Seq<char>) -> Seq<
    (Seq<char>, Picture),
> {
    if keeps(entries, url) {
        entries.remove(place_of(entries, url))
    } else {
        entries
    }
}

/// The entries with the oldest dropped until `size` more bytes fit the budget.
pub open spec fn making_room(entries: Seq<(Seq<char>, Picture)>, size: int) -> Seq<
    (Seq<char>, Picture),
>
    decreases entries.len(),
{
    if entries.len() > 0 && total_bytes(entries) + size > IMAGE_CACHE_BUDGET {
        making_room(entries.drop_first(), size)
    } else {
        entries
    }
}

/// The entries after `url` was asked for: if it is kept, it becomes the newest.
pub open spec fn after_get(entries: Seq<(Seq<char>, Picture)>, url: Seq<char>) -> Seq<
    (Seq<char>, Picture),
> {
    if keeps(entries, url) {
        without(entries, url).push(entries[place_of(entries, url)])
    } else {
        entries
    }
}

/// The picture kept under `url`, if there is one.
pub open spec fn found(entries: Seq<(Seq<char>, Picture)>, url: Seq<char>) -> Option<Picture> {
    if keeps(entries, url) {
        Some(entries[place_of(entries, url)].1)
    } else {
        None
    }
}

/// The entries after `picture` was put under `url`.
pub open spec fn after_insert(
    entries: Seq<(Seq<char>, Picture)>,
    url: Seq<char>,
    picture: Picture,
) -> Seq<(Seq<char>, Picture)> {
    if picture.bytes > IMAGE_CACHE_BUDGET {
        entries
    } else {
        making_room(without(entries, url), picture.bytes as int).push((url, picture))
    }
}

/// What every cache keeps: the bytes are those of its entries, they are within the
/// budget, and no address is kept twice.
pub open spec fn sound(entries: Seq<(Seq<char>, Picture)>) -> bool {
    &&& total_bytes(entries) <= IMAGE_CACHE_BUDGET
    &&& distinct(entries)
}

/// Whether no address is kept twice.
pub open spec fn distinct(entries: Seq<(Seq<char>, Picture)>) -> bool {
    forall|i: int, j: int|
        0 <= i < j < entries.len() ==> (#[trigger] entries[i]).0 != (#[trigger] entries[j]).0
}

impl View for ImageCache {
    type V = Seq<(Seq<char>, Picture)>;

    closed spec fn view(&self) -> Seq<(Seq<char>, Picture)> {
        self.entries.deep_view()
    }
}

proof fn total_is_not_negative(entries: Seq<(Seq<char>, Picture)>)
    ensures
        total_bytes(entries) >= 0,
    decreases entries.len(),
{
    if entries.len() > 0 {
        total_is_not_negative(entries.drop_last());
    }
}

proof fn total_of_push(entries: Seq<(Seq<char>, Picture)>, entry: (Seq<char>, Picture))
    ensures
        total_bytes(entries.push(entry)) == total_bytes(entries) + entry.1.bytes,
{
    assert(entries.push(entry).drop_last() == entries);
}

proof fn total_of_remove(entries: Seq<(Seq<char>, Picture)>, at: int)
    requires
        0 <= at < entries.len(),
    ensures
        total_bytes(entries.remove(at)) == total_bytes(entries) - entries[at].1.bytes,
    decreases entries.len(),
{
    if at == entries.len() - 1 {
        assert(entries.remove(at) == entries.drop_last());
    } else {
        let rest = entries.drop_last();
        total_of_remove(rest, at);
        assert(entries.remove(at).drop_last() == rest.remove(at));
        assert(entries.remove(at).last() == entries.last());
    }
}

proof fn place_is_there(entries: Seq<(Seq<char>, Picture)>, url: Seq<char>, at: int)
    requires
        0 <= at < entries.len(),
        entries[at].0 == url,
        forall|j: int| 0 <= j < at ==> (#[trigger] entries[j]).0 != url,
    ensures
        keeps(entries, url),
        place_of(entries, url) == at,
{
    let chosen = place_of(entries, url);
    assert(0 <= chosen < entries.len() && entries[chosen].0 == url);
    if chosen < at {
        assert(entries[chosen].0 != url);
    }
    if at < chosen {
        assert(entries[at].0 != url);
    }
}

impl ImageCache {
    /// Whether the byte count is that of the entries, within the budget, and no
    /// address is kept twice.
    pub closed spec fn wf(&self) -> bool {
        &&& sound(self@)
        &&& self.bytes == total_bytes(self@)
    }

    /// A cache that keeps nothing.
    pub fn new() -> (cache: Self)
        ensures
            cache.wf(),
            cache@ == Seq::<(Seq<char>, Picture)>::empty(),
    {
        let cache = ImageCache { entries: Vec::new(), bytes: 0 };
        assert(cache@ =~= Seq::<(Seq<char>, Picture)>::empty());
        cache
    }

    /// How many bytes of decoded pictures are kept.
    pub fn bytes(&self) -> (bytes: usize)
        requires
            self.wf(),
        ensures
            bytes == total_bytes(self@),
            bytes <= IMAGE_CACHE_BUDGET,
    {
        self.bytes
    }

    /// Where `url` is kept, if it is.
    fn position(&self, url: &str) -> (at: Option<usize>)
        ensures
            match at {
                Some(i) => i < self@.len() && keeps(self@, url@) && i == place_of(self@, url@),
                None => !keeps(self@, url@),
            },
    {
        let mut i: usize = 0;
        let wanted = url.to_owned();
        while i < self.entries.len()
            invariant
                i <= self.entries.len(),
                wanted@ == url@,
                self@.len() == self.entries.len(),
                forall|j: int| 0 <= j < i ==> (#[trigger] self@[j]).0 != url@,
            decreases self.entries.len() - i,
        {
            if self.entries[i].url == wanted {
                proof {
                    assert(self@[i as int].0 == url@);
                    place_is_there(self@, url@, i as int);
                }
                return Some(i);
            }
            assert(self@[i as int].0 != url@);
            i = i + 1;
        }
        None
    }

    /// The picture at `url`, if it is here, marked as just used.
    pub fn get(&mut self, url: &str) -> (picture: Option<Picture>)
        requires
            old(self).wf(),
        ensures
            final(self).wf(),
            final(self)@ == after_get(old(self)@, url@),
            picture == found(old(self)@, url@),
    {
        let ghost before = self@;
        match self.position(url) {
            None => None,
            Some(at) => {
                let entry = self.entries.remove(at);
                let picture = entry.picture;
                assert(self@ =~= before.remove(at as int));
                let ghost rest = self@;
                self.entries.push(entry);
                proof {
                    assert(self@ =~= rest.push(before[at as int]));
                    total_of_remove(before, at as int);
                    total_of_push(rest, before[at as int]);
                }
                Some(picture)
            },
        }
    }

    /// Keep `picture` under `url`, evicting the least recently used until it fits.
    ///
    /// One picture larger than the whole budget is not worth evicting everything
    /// else for, and is not kept.
    pub fn insert(&mut self, url: String, picture: Picture)
        requires
            old(self).wf(),
        ensures
            final(self).wf(),
            final(self)@ == after_insert(old(self)@, url@, picture),
    {
        let ghost before = self@;
        let size: usize = picture.bytes;
        if size > IMAGE_CACHE_BUDGET {
            return;
        }
        match self.position(url.as_str()) {
            None => {},
            Some(at) => {
                let old_entry = self.entries.remove(at);
                proof {
                    assert(self.entries.deep_view() =~= before.remove(at as int));
                    total_of_remove(before, at as int);
                    total_is_not_negative(before.remove(at as int));
                }
                self.bytes = self.bytes - old_entry.picture.bytes;
            },
        }
        let ghost cleared = self@;
        assert(cleared =~= without(before, url@));
        assert(!keeps(cleared, url@)) by {
            if keeps(cleared, url@) {
                let i = choose|i: int| 0 <= i < cleared.len() && (#[trigger] cleared[i]).0 == url@;
                if keeps(before, url@) {
                    let at = place_of(before, url@);
                    let old_i = if i < at {
                        i
                    } else {
                        i + 1
                    };
                    assert(cleared[i] == before[old_i]);
                    assert(before[old_i].0 == before[at].0);
                }
            }
        }
        assert(distinct(cleared));
        while self.bytes > IMAGE_CACHE_BUDGET - size && self.entries.len() > 0
            invariant
                size == picture.bytes,
                size <= IMAGE_CACHE_BUDGET,
                self.bytes == total_bytes(self@),
                self.bytes <= IMAGE_CACHE_BUDGET,
                self@.len() == self.entries.len(),
                distinct(self@),
                !keeps(self@, url@),
                making_room(cleared, size as int) == making_room(self@, size as int),
            decreases self.entries.len(),
        {
            let ghost holding = self@;
            let evicted = self.entries.remove(0);
            proof {
                assert(self.entries.deep_view() =~= holding.remove(0));
                assert(holding.remove(0) =~= holding.drop_first());
                total_of_remove(holding, 0);
                total_is_not_negative(holding.remove(0));
                assert(holding[0].1 == evicted.picture);
            }
            self.bytes = self.bytes - evicted.picture.bytes;
            proof {
                assert(self@ =~= holding.drop_first());
                assert forall|i: int| 0 <= i < self@.len() implies (#[trigger] self@[i]).0 != url@ by {
                    assert(self@[i] == holding[i + 1]);
                }
            }
        }
        let ghost room = self@;
        proof {
            if room.len() == 0 {
                assert(total_bytes(room) == 0);
            }
        }
        self.bytes = self.bytes + size;
        self.entries.push(Kept { url, picture });
        proof {
            assert(self@ =~= room.push((url@, picture)));
            total_of_push(room, (url@, picture));
        }
    }
}

impl Default for ImageCache {
    fn default() -> (cache: Self)
        ensures
            cache.wf(),
            cache@ == Seq::<(Seq<char>, Picture)>::empty(),
    {
        ImageCache::new()
    }
}

/// What was just put in is found, unless it is larger than the whole budget.
pub proof fn what_fits_is_found(entries: Seq<(Seq<char>, Picture)>, url: Seq<char>, picture: Picture)
    requires
        sound(entries),
        picture.bytes <= IMAGE_CACHE_BUDGET,
    ensures
        found(after_insert(entries, url, picture), url) == Some(picture),
{
    let cleared = without(entries, url);
    cleared_keeps_it_not(entries, url);
    room_is_a_tail(cleared, picture.bytes as int);
    let room = making_room(cleared, picture.bytes as int);
    let after = room.push((url, picture));
    assert forall|j: int| 0 <= j < room.len() implies (#[trigger] after[j]).0 != url by {
        assert(after[j] == cleared[j + cleared.len() - room.len()]);
    }
    place_is_there(after, url, room.len() as int);
}

/// A picture larger than the whole budget changes nothing.
pub proof fn what_cannot_fit_changes_nothing(
    entries: Seq<(Seq<char>, Picture)>,
    url: Seq<char>,
    picture: Picture,
)
    requires
        picture.bytes > IMAGE_CACHE_BUDGET,
    ensures
        after_insert(entries, url, picture) == entries,
{
}

/// What is evicted is what was used longest ago: what is left of the old entries is
/// the newest of them, in the order they were in.
pub proof fn the_newest_stay(entries: Seq<(Seq<char>, Picture)>, url: Seq<char>, picture: Picture)
    requires
        picture.bytes <= IMAGE_CACHE_BUDGET,
    ensures
        ({
            let kept = after_insert(entries, url, picture).drop_last();
            let old = without(entries, url);
            kept.len() <= old.len() && kept == old.skip(old.len() - kept.len())
        }),
{
    let old = without(entries, url);
    room_is_a_tail(old, picture.bytes as int);
    let room = making_room(old, picture.bytes as int);
    assert(room.push((url, picture)).drop_last() == room);
}

/// Nothing is evicted while what is there and what is added fit the budget together.
pub proof fn nothing_goes_while_it_fits(
    entries: Seq<(Seq<char>, Picture)>,
    url: Seq<char>,
    picture: Picture,
)
    requires
        !keeps(entries, url),
        total_bytes(entries) + picture.bytes <= IMAGE_CACHE_BUDGET,
    ensures
        after_insert(entries, url, picture) == entries.push((url, picture)),
{
    total_is_not_negative(entries);
}

/// Asking for a picture keeps every entry, and makes the one asked for the last that
/// would be evicted.
pub proof fn what_is_asked_for_becomes_the_newest(
    entries: Seq<(Seq<char>, Picture)>,
    url: Seq<char>,
)
    requires
        keeps(entries, url),
    ensures
        after_get(entries, url).to_multiset() == entries.to_multiset(),
        after_get(entries, url).last() == (url, found(entries, url)->0),
{
    let at = a_place(entries, url);
    broadcast use vstd::seq_lib::group_to_multiset_ensures;

    assert(entries.remove(at).push(entries[at]).to_multiset() =~= entries.to_multiset());
}

proof fn a_place(entries: Seq<(Seq<char>, Picture)>, url: Seq<char>) -> (at: int)
    requires
        keeps(entries, url),
    ensures
        at == place_of(entries, url),
        0 <= at < entries.len(),
        entries[at].0 == url,
        forall|j: int| 0 <= j < at ==> (#[trigger] entries[j]).0 != url,
    decreases entries.len(),
{
    if keeps(entries.drop_last(), url) {
        let shorter = entries.drop_last();
        let at = a_place(shorter, url);
        assert(entries[at] == shorter[at]);
        assert forall|j: int| 0 <= j < at implies (#[trigger] entries[j]).0 != url by {
            assert(entries[j] == shorter[j]);
        }
        place_is_there(entries, url, at);
        at
    } else {
        let at = entries.len() - 1;
        let shorter = entries.drop_last();
        assert forall|j: int| 0 <= j < at implies (#[trigger] entries[j]).0 != url by {
            assert(shorter[j] == entries[j]);
        }
        let i = choose|i: int| 0 <= i < entries.len() && (#[trigger] entries[i]).0 == url;
        assert(i == at);
        place_is_there(entries, url, at);
        at
    }
}

proof fn cleared_keeps_it_not(entries: Seq<(Seq<char>, Picture)>, url: Seq<char>)
    requires
        distinct(entries),
    ensures
        !keeps(without(entries, url), url),
{
    let cleared = without(entries, url);
    if keeps(entries, url) && keeps(cleared, url) {
        let at = a_place(entries, url);
        let i = choose|i: int| 0 <= i < cleared.len() && (#[trigger] cleared[i]).0 == url;
        let old_i = if i < at {
            i
        } else {
            i + 1
        };
        assert(cleared[i] == entries[old_i]);
        assert(entries[old_i].0 == entries[at].0);
    }
}

proof fn room_is_a_tail(entries: Seq<(Seq<char>, Picture)>, size: int)
    ensures
        making_room(entries, size).len() <= entries.len(),
        making_room(entries, size) == entries.skip(
            entries.len() - making_room(entries, size).len(),
        ),
    decreases entries.len(),
{
    if entries.len() > 0 && total_bytes(entries) + size > IMAGE_CACHE_BUDGET {
        let rest = entries.drop_first();
        room_is_a_tail(rest, size);
        let k = rest.len() - making_room(rest, size).len();
        assert(rest.skip(k) == entries.skip(k + 1));
    } else {
        assert(entries.skip(0) == entries);
    }
}

/// A cache is sound whatever was done with it: what it keeps is within the budget, and no
/// address is kept twice.
pub proof fn a_cache_is_always_sound(cache: ImageCache)
    requires
        cache.wf(),
    ensures
        sound(cache@),
{
}

/// Where no address is kept twice, what is kept under an address is what is found under it.
proof fn what_is_kept_is_found(entries: Seq<(Seq<char>, Picture)>, at: int)
    requires
        distinct(entries),
        0 <= at < entries.len(),
    ensures
        found(entries, entries[at].0) == Some(entries[at].1),
{
    place_is_there(entries, entries[at].0, at);
}

/// Looking for one picture changes nothing of what is found under any address.
pub proof fn looking_loses_nothing(
    entries: Seq<(Seq<char>, Picture)>,
    url: Seq<char>,
    other: Seq<char>,
)
    requires
        distinct(entries),
    ensures
        found(after_get(entries, url), other) == found(entries, other),
        distinct(after_get(entries, url)),
{
    let after = after_get(entries, url);
    if keeps(entries, url) {
        let at = a_place(entries, url);
        assert forall|i: int, j: int| 0 <= i < j < after.len() implies (#[trigger] after[i]).0 != (
        #[trigger] after[j]).0 by {
            let x = if i < at {
                i
            } else {
                i + 1
            };
            let y = if j == after.len() - 1 {
                at
            } else if j < at {
                j
            } else {
                j + 1
            };
            assert(after[i] == entries[x] && after[j] == entries[y]);
        }
        if keeps(entries, other) {
            let i = a_place(entries, other);
            let now = if i == at {
                after.len() - 1
            } else if i < at {
                i
            } else {
                i - 1
            };
            assert(after[now] == entries[i]);
            what_is_kept_is_found(after, now);
        } else if keeps(after, other) {
            let j = a_place(after, other);
            let y = if j == after.len() - 1 {
                at
            } else if j < at {
                j
            } else {
                j + 1
            };
            assert(entries[y].0 == other);
        }
    }
}

/// Putting a picture in changes what is found under no other address, but that what was there
/// may have had to go; where it all fits, nothing has.
pub proof fn putting_one_in_changes_no_other(
    entries: Seq<(Seq<char>, Picture)>,
    url: Seq<char>,
    picture: Picture,
    other: Seq<char>,
)
    requires
        sound(entries),
        other != url,
    ensures
        ({
            let after = after_insert(entries, url, picture);
            &&& found(after, other) is Some ==> found(after, other) == found(entries, other)
            &&& total_bytes(entries) + picture.bytes <= IMAGE_CACHE_BUDGET ==> found(after, other)
                == found(entries, other)
        }),
{
    let after = after_insert(entries, url, picture);
    if picture.bytes <= IMAGE_CACHE_BUDGET {
        let old = without(entries, url);
        room_is_a_tail(old, picture.bytes as int);
        let room = making_room(old, picture.bytes as int);
        let gone = old.len() - room.len();
        if keeps(after, other) {
            let j = a_place(after, other);
            assert(after[j] == old[j + gone]);
            let from = where_it_was(entries, url, j + gone);
            what_is_kept_is_found(entries, from);
        }
        if total_bytes(entries) + picture.bytes <= IMAGE_CACHE_BUDGET {
            total_is_not_negative(entries);
            if keeps(entries, url) {
                let gone = a_place(entries, url);
                total_of_remove(entries, gone);
                if keeps(entries, other) {
                    let i = a_place(entries, other);
                    let now = if gone < i {
                        i - 1
                    } else {
                        i
                    };
                    assert(after[now] == entries[i]);
                    assert(keeps(after, other));
                }
            } else if keeps(entries, other) {
                let i = a_place(entries, other);
                assert(after[i] == entries[i]);
                assert(keeps(after, other));
            }
        }
    }
}

proof fn where_it_was(entries: Seq<(Seq<char>, Picture)>, url: Seq<char>, at: int) -> (from: int)
    requires
        0 <= at < without(entries, url).len(),
    ensures
        0 <= from < entries.len(),
        entries[from] == without(entries, url)[at],
{
    if keeps(entries, url) {
        let gone = a_place(entries, url);
        if at < gone {
            at
        } else {
            at + 1
        }
    } else {
        at
    }
}

/// No more goes than must: had the newest of those that went stayed, the rest and what was put
/// in would be over the budget of sixty-four megabytes.
pub proof fn no_more_goes_than_must(
    entries: Seq<(Seq<char>, Picture)>,
    url: Seq<char>,
    picture: Picture,
)
    requires
        picture.bytes <= IMAGE_CACHE_BUDGET,
    ensures
        ({
            let old = without(entries, url);
            let kept = after_insert(entries, url, picture).drop_last();
            &&& kept.len() < old.len() ==> total_bytes(old.skip(old.len() - kept.len() - 1))
                + picture.bytes > 67_108_864
            &&& total_bytes(kept) + picture.bytes <= 67_108_864
        }),
{
    let old = without(entries, url);
    let room = making_room(old, picture.bytes as int);
    assert(room.push((url, picture)).drop_last() =~= room);
    room_is_no_smaller_than_it_must(old, picture.bytes as int);
}

proof fn room_is_no_smaller_than_it_must(entries: Seq<(Seq<char>, Picture)>, size: int)
    requires
        0 <= size <= IMAGE_CACHE_BUDGET,
    ensures
        ({
            let room = making_room(entries, size);
            &&& room.len() <= entries.len()
            &&& room.len() < entries.len() ==> total_bytes(
                entries.skip(entries.len() - room.len() - 1),
            ) + size > IMAGE_CACHE_BUDGET
            &&& total_bytes(room) + size <= IMAGE_CACHE_BUDGET
        }),
    decreases entries.len(),
{
    if entries.len() > 0 && total_bytes(entries) + size > IMAGE_CACHE_BUDGET {
        let rest = entries.drop_first();
        room_is_no_smaller_than_it_must(rest, size);
        let room = making_room(rest, size);
        if room.len() < rest.len() {
            let k = rest.len() - room.len() - 1;
            assert(rest.skip(k) =~= entries.skip(k + 1));
        } else {
            assert(entries.skip(0) =~= entries);
        }
    }
}

} // verus!
