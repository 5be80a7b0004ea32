//! The ladder a zoom is taken along, and the zoom each site was left at.
//!
//! A zoom is held in millionths: a page drawn at its own size is at one million.

use vstd::prelude::*;

verus! {

/// Which way a zoom is being taken.
#[derive(Copy, Clone, Debug, PartialEq, Eq, Structural)]
pub enum ZoomStep {
    /// One stop larger.
    In,
    /// One stop smaller.
    Out,
    /// Back to the page's own size.
    Reset,
}

/// A page at its own size.
pub const OWN_SIZE: u32 = 1_000_000;

/// The smallest a page is drawn.
pub const SMALLEST: u32 = 250_000;

/// The largest a page is drawn.
pub const LARGEST: u32 = 5_000_000;

/// The stops of the ladder, smallest first.
pub open spec fn ladder() -> Seq<u32> {
    seq![
        250_000u32,
        330_000,
        500_000,
        670_000,
        750_000,
        800_000,
        900_000,
        1_000_000,
        1_100_000,
        1_250_000,
        1_500_000,
        1_750_000,
        2_000_000,
        2_500_000,
        3_000_000,
        4_000_000,
        5_000_000,
    ]
}

/// `zoom` brought into the range a page is drawn in.
pub open spec fn clamped(zoom: u32) -> u32 {
    if zoom < SMALLEST {
        SMALLEST
    } else if zoom > LARGEST {
        LARGEST
    } else {
        zoom
    }
}

/// The smallest stop above `current`, or `current` where there is none.
pub open spec fn is_stop_above(stop: u32, current: u32) -> bool {
    if exists|i: int| 0 <= i < ladder().len() && #[trigger] ladder()[i] > current {
        &&& ladder().contains(stop)
        &&& stop > current
        &&& forall|i: int|
            0 <= i < ladder().len() && #[trigger] ladder()[i] > current ==> stop <= ladder()[i]
    } else {
        stop == current
    }
}

/// The largest stop below `current`, or `current` where there is none.
pub open spec fn is_stop_below(stop: u32, current: u32) -> bool {
    if exists|i: int| 0 <= i < ladder().len() && #[trigger] ladder()[i] < current {
        &&& ladder().contains(stop)
        &&& stop < current
        &&& forall|i: int|
            0 <= i < ladder().len() && #[trigger] ladder()[i] < current ==> stop >= ladder()[i]
    } else {
        stop == current
    }
}

/// Where one step takes a zoom.
pub open spec fn stepped(step: ZoomStep, current: u32) -> u32 {
    match step {
        ZoomStep::Reset => OWN_SIZE,
        ZoomStep::In => choose|stop: u32| is_stop_above(stop, current),
        ZoomStep::Out => choose|stop: u32| is_stop_below(stop, current),
    }
}

/// There is one smallest stop above a zoom, so a step up lands on it.
pub proof fn a_step_in_is_the_next_stop(current: u32, stop: u32)
    requires
        is_stop_above(stop, current),
    ensures
        stepped(ZoomStep::In, current) == stop,
{
    let chosen = stepped(ZoomStep::In, current);
    assert(is_stop_above(chosen, current));
    if exists|i: int| 0 <= i < ladder().len() && #[trigger] ladder()[i] > current {
        let i = choose|i: int| 0 <= i < ladder().len() && ladder()[i] == stop;
        let j = choose|j: int| 0 <= j < ladder().len() && ladder()[j] == chosen;
        assert(ladder()[i] > current && ladder()[j] > current);
    }
}

/// There is one largest stop below a zoom, so a step down lands on it.
pub proof fn a_step_out_is_the_stop_before(current: u32, stop: u32)
    requires
        is_stop_below(stop, current),
    ensures
        stepped(ZoomStep::Out, current) == stop,
{
    let chosen = stepped(ZoomStep::Out, current);
    assert(is_stop_below(chosen, current));
    if exists|i: int| 0 <= i < ladder().len() && #[trigger] ladder()[i] < current {
        let i = choose|i: int| 0 <= i < ladder().len() && ladder()[i] == stop;
        let j = choose|j: int| 0 <= j < ladder().len() && ladder()[j] == chosen;
        assert(ladder()[i] < current && ladder()[j] < current);
    }
}

/// The stops of the ladder, smallest first.
fn stops() -> (out: Vec<u32>)
    ensures
        out@ == ladder(),
{
    let out = vec![
        250_000u32,
        330_000,
        500_000,
        670_000,
        750_000,
        800_000,
        900_000,
        1_000_000,
        1_100_000,
        1_250_000,
        1_500_000,
        1_750_000,
        2_000_000,
        2_500_000,
        3_000_000,
        4_000_000,
        5_000_000,
    ];
    assert(out@ =~= ladder());
    out
}

/// Where one step along the ladder takes a zoom of `current`.
///
/// A ladder rather than a multiplier, because a reader presses the key until the page
/// looks right and the stops have to be the ones they recognize.
pub fn step_from(step: ZoomStep, current: u32) -> (wanted: u32)
    ensures
        wanted == stepped(step, current),
{
    let stops = stops();
    match step {
        ZoomStep::Reset => OWN_SIZE,
        ZoomStep::In => {
            let mut at: usize = 0;
            while at < stops.len() && stops[at] <= current
                invariant
                    stops@ == ladder(),
                    at <= stops.len(),
                    forall|i: int| 0 <= i < at ==> #[trigger] ladder()[i] <= current,
                decreases stops.len() - at,
            {
                at = at + 1;
            }
            let wanted: u32 = if at < stops.len() {
                stops[at]
            } else {
                current
            };
            proof {
                if at < stops.len() {
                    assert(ladder()[at as int] > current);
                    assert(ladder().contains(wanted));
                    the_ladder_climbs();
                }
                assert(is_stop_above(wanted, current));
                a_step_in_is_the_next_stop(current, wanted);
            }
            wanted
        },
        ZoomStep::Out => {
            let mut at: usize = stops.len();
            while at > 0 && stops[at - 1] >= current
                invariant
                    stops@ == ladder(),
                    at <= stops.len(),
                    forall|i: int| at <= i < ladder().len() ==> #[trigger] ladder()[i] >= current,
                decreases at,
            {
                at = at - 1;
            }
            let wanted: u32 = if at > 0 {
                stops[at - 1]
            } else {
                current
            };
            proof {
                if at > 0 {
                    assert(ladder()[at - 1] < current);
                    assert(ladder().contains(wanted));
                    the_ladder_climbs();
                }
                assert(is_stop_below(wanted, current));
                a_step_out_is_the_stop_before(current, wanted);
            }
            wanted
        },
    }
}

/// Each stop of the ladder is larger than the one before it.
pub proof fn the_ladder_climbs()
    ensures
        forall|i: int, j: int|
            0 <= i < j < ladder().len() ==> #[trigger] ladder()[i] < #[trigger] ladder()[j],
{
}

/// A step in never makes a page smaller, and one from inside the range stays inside.
pub proof fn a_step_in_is_larger_until_the_end(current: u32)
    requires
        current <= LARGEST,
    ensures
        current <= stepped(ZoomStep::In, current) <= LARGEST,
        current < LARGEST ==> current < stepped(ZoomStep::In, current),
{
    if current < LARGEST {
        assert(ladder()[16] > current);
        next_above(current, 16);
    } else {
        assert forall|i: int| 0 <= i < ladder().len() implies #[trigger] ladder()[i] <= current by {}
        assert(is_stop_above(current, current));
    }
    let stop = stepped(ZoomStep::In, current);
    assert(is_stop_above(stop, current));
}

/// A step out never makes a page larger, and one from inside the range stays inside.
pub proof fn a_step_out_is_smaller_until_the_end(current: u32)
    requires
        SMALLEST <= current,
    ensures
        SMALLEST <= stepped(ZoomStep::Out, current) <= current,
        SMALLEST < current ==> stepped(ZoomStep::Out, current) < current,
{
    if SMALLEST < current {
        assert(ladder()[0] < current);
        next_below(current, 0);
    } else {
        assert forall|i: int| 0 <= i < ladder().len() implies #[trigger] ladder()[i] >= current by {}
        assert(is_stop_below(current, current));
    }
    let stop = stepped(ZoomStep::Out, current);
    assert(is_stop_below(stop, current));
}

proof fn next_above(current: u32, at: int)
    requires
        0 <= at < ladder().len(),
        ladder()[at] > current,
    ensures
        exists|stop: u32| is_stop_above(stop, current),
    decreases at,
{
    if at > 0 && ladder()[at - 1] > current {
        next_above(current, at - 1);
    } else {
        the_ladder_climbs();
        assert(ladder().contains(ladder()[at]));
        assert(is_stop_above(ladder()[at], current));
    }
}

proof fn next_below(current: u32, at: int)
    requires
        0 <= at < ladder().len(),
        ladder()[at] < current,
    ensures
        exists|stop: u32| is_stop_below(stop, current),
    decreases ladder().len() - at,
{
    if at + 1 < ladder().len() && ladder()[at + 1] < current {
        next_below(current, at + 1);
    } else {
        the_ladder_climbs();
        assert(ladder().contains(ladder()[at]));
        assert(is_stop_below(ladder()[at], current));
    }
}

/// From one stop of the ladder, a step in and a step out again is no step, except at
/// the top, where there is nothing to step to.
pub proof fn a_step_in_and_out_again_is_none(at: int)
    requires
        0 <= at < ladder().len() - 1,
    ensures
        stepped(ZoomStep::In, ladder()[at]) == ladder()[at + 1],
        stepped(ZoomStep::Out, ladder()[at + 1]) == ladder()[at],
{
    the_ladder_climbs();
    assert(ladder().contains(ladder()[at + 1]));
    assert(ladder().contains(ladder()[at]));
    assert(is_stop_above(ladder()[at + 1], ladder()[at]));
    assert(is_stop_below(ladder()[at], ladder()[at + 1]));
    a_step_in_is_the_next_stop(ladder()[at], ladder()[at + 1]);
    a_step_out_is_the_stop_before(ladder()[at + 1], ladder()[at]);
}

/// One site and the zoom it was left at.
#[derive(Debug)]
pub struct SiteZoom {
    pub site: String,
    pub zoom: u32,
}

/// The zoom each site was left at.
///
/// A site at its own size is the absence of an entry rather than an entry saying so,
/// so that preferences do not carry a line for every place anyone has ever been.
pub struct ZoomMemory {
    entries: Vec<SiteZoom>,
}

/// Whether an entry for `site` is among `entries`.
spec fn remembers(entries: Seq<SiteZoom>, site: Seq<char>) -> bool {
    exists|i: int| 0 <= i < entries.len() && (#[trigger] entries[i]).site@ == site
}

/// Which of `entries` is the one for `site`.
spec fn entry_for(entries: Seq<SiteZoom>, site: Seq<char>) -> int {
    choose|i: int| 0 <= i < entries.len() && (#[trigger] entries[i]).site@ == site
}

impl View for ZoomMemory {
    type V = Map<Seq<char>, u32>;

    closed spec fn view(&self) -> Map<Seq<char>, u32> {
        Map::new(
            |site: Seq<char>| remembers(self.entries@, site),
            |site: Seq<char>| self.entries@[entry_for(self.entries@, site)].zoom,
        )
    }
}

/// What is remembered once a site has been left at `zoom`.
pub open spec fn left_at(memory: Map<Seq<char>, u32>, site: Seq<char>, zoom: u32) -> Map<
    Seq<char>,
    u32,
> {
    if zoom == OWN_SIZE {
        memory.remove(site)
    } else {
        memory.insert(site, zoom)
    }
}

/// The zoom a site comes back at.
pub open spec fn comes_back_at(memory: Map<Seq<char>, u32>, site: Option<Seq<char>>) -> u32 {
    match site {
        Some(site) => if memory.dom().contains(site) {
            memory[site]
        } else {
            OWN_SIZE
        },
        None => OWN_SIZE,
    }
}

impl ZoomMemory {
    /// Whether no site has two entries.
    pub closed spec fn wf(&self) -> bool {
        forall|i: int, j: int|
            0 <= i < j < self.entries@.len() ==> (#[trigger] self.entries@[i]).site@ != (
            #[trigger] self.entries@[j]).site@
    }

    /// A memory of nothing.
    pub fn new() -> (memory: Self)
        ensures
            memory.wf(),
            memory@ == Map::<Seq<char>, u32>::empty(),
    {
        let memory = ZoomMemory { entries: Vec::new() };
        assert(memory@ =~= Map::<Seq<char>, u32>::empty());
        memory
    }

    /// Whether no site is remembered at all.
    pub fn is_empty(&self) -> (answer: bool)
        ensures
            answer == (self@ == Map::<Seq<char>, u32>::empty()),
    {
        proof {
            if self.entries@.len() == 0 {
                assert(self@ =~= Map::<Seq<char>, u32>::empty());
            } else {
                let site = self.entries@[0].site@;
                assert(remembers(self.entries@, site));
                assert(self@.dom().contains(site));
            }
        }
        self.entries.len() == 0
    }

    fn position(&self, site: &String) -> (at: Option<usize>)
        requires
            self.wf(),
        ensures
            match at {
                Some(i) => i < self.entries.len() && self.entries@[i as int].site@ == site@
                    && self@.dom().contains(site@) && self@[site@] == self.entries@[i as int].zoom,
                None => !self@.dom().contains(site@),
            },
    {
        let mut i: usize = 0;
        while i < self.entries.len()
            invariant
                i <= self.entries.len(),
                self.wf(),
                forall|j: int| 0 <= j < i ==> (#[trigger] self.entries@[j]).site@ != site@,
            decreases self.entries.len() - i,
        {
            if self.entries[i].site == *site {
                assert(remembers(self.entries@, site@));
                assert(entry_for(self.entries@, site@) == i);
                return Some(i);
            }
            i = i + 1;
        }
        None
    }

    /// The zoom `site` was left at, if it is remembered.
    pub fn get(&self, site: &String) -> (zoom: Option<u32>)
        requires
            self.wf(),
        ensures
            match zoom {
                Some(zoom) => self@.dom().contains(site@) && self@[site@] == zoom,
                None => !self@.dom().contains(site@),
            },
    {
        match self.position(site) {
            Some(i) => Some(self.entries[i].zoom),
            None => None,
        }
    }

    /// Remember that `site` was left at `zoom`, and say whether that is news.
    pub fn leave_at(&mut self, site: String, zoom: u32) -> (changed: bool)
        requires
            old(self).wf(),
        ensures
            final(self).wf(),
            final(self)@ == left_at(old(self)@, site@, zoom),
            changed == (final(self)@ != old(self)@),
    {
        let ghost before = self@;
        let ghost held = self.entries@;
        match self.position(&site) {
            Some(i) => {
                let was: u32 = self.entries[i].zoom;
                if zoom == OWN_SIZE {
                    let gone = self.entries.remove(i);
                    proof {
                        let now = self.entries@;
                        assert forall|key: Seq<char>| remembers(now, key) <==> (remembers(held, key)
                            && key != site@) by {
                            if remembers(now, key) {
                                let k = entry_for(now, key);
                                let old_k = if k < i {
                                    k
                                } else {
                                    k + 1
                                };
                                assert(held[old_k] == now[k]);
                            }
                            if remembers(held, key) && key != site@ {
                                let k = entry_for(held, key);
                                let new_k = if k < i {
                                    k
                                } else {
                                    k - 1
                                };
                                assert(now[new_k] == held[k]);
                            }
                        }
                        assert forall|key: Seq<char>| remembers(now, key) implies self@[key]
                            == before[key] by {
                            let k = entry_for(now, key);
                            let old_k = if k < i {
                                k
                            } else {
                                k + 1
                            };
                            assert(held[old_k] == now[k]);
                            assert(entry_for(held, key) == old_k);
                        }
                        assert(self@ =~= before.remove(site@));
                        assert(before.dom().contains(site@));
                        assert(!self@.dom().contains(site@));
                    }
                    true
                } else {
                    self.entries[i].zoom = zoom;
                    proof {
                        let now = self.entries@;
                        assert(now[i as int].site@ == site@);
                        assert forall|k: int| 0 <= k < now.len() implies (#[trigger] now[k]).site@
                            == held[k].site@ by {}
                        assert forall|key: Seq<char>| remembers(now, key) <==> remembers(
                            held,
                            key,
                        ) by {
                            if remembers(now, key) {
                                assert(held[entry_for(now, key)].site@ == key);
                            }
                            if remembers(held, key) {
                                assert(now[entry_for(held, key)].site@ == key);
                            }
                        }
                        assert forall|key: Seq<char>| remembers(now, key) implies self@[key] == (
                        if key == site@ {
                            zoom
                        } else {
                            before[key]
                        }) by {
                            let k = entry_for(now, key);
                            assert(held[k].site@ == key);
                            assert(entry_for(held, key) == k);
                        }
                        assert(self@ =~= before.insert(site@, zoom));
                        assert(before[site@] == was);
                        assert(self@[site@] == zoom);
                        if was == zoom {
                            assert(self@ =~= before);
                        }
                    }
                    was != zoom
                }
            },
            None => {
                if zoom == OWN_SIZE {
                    assert(self@ =~= before.remove(site@));
                    false
                } else {
                    let ghost key_new = site@;
                    self.entries.push(SiteZoom { site, zoom });
                    proof {
                        let now = self.entries@;
                        assert forall|k: int| 0 <= k < held.len() implies held[k].site@
                            != key_new by {
                            if held[k].site@ == key_new {
                                assert(remembers(held, key_new));
                            }
                        }
                        assert forall|key: Seq<char>| remembers(now, key) <==> (remembers(held, key)
                            || key == key_new) by {
                            if remembers(held, key) {
                                let k = entry_for(held, key);
                                assert(now[k] == held[k]);
                            }
                            assert(now[held.len() as int].site@ == key_new);
                            if remembers(now, key) {
                                let k = entry_for(now, key);
                                if k < held.len() {
                                    assert(held[k] == now[k]);
                                }
                            }
                        }
                        assert forall|key: Seq<char>| remembers(now, key) implies self@[key] == (
                        if key == key_new {
                            zoom
                        } else {
                            before[key]
                        }) by {
                            let k = entry_for(now, key);
                            if k < held.len() {
                                assert(held[k] == now[k]);
                                assert(entry_for(held, key) == k);
                            }
                        }
                        assert(self@ =~= before.insert(key_new, zoom));
                        assert(self@.dom().contains(key_new));
                    }
                    true
                }
            },
        }
    }
}

/// A zoom is remembered against the site it was set on, and against no other.
pub proof fn a_zoom_belongs_to_its_site(
    memory: Map<Seq<char>, u32>,
    site: Seq<char>,
    other: Seq<char>,
    zoom: u32,
)
    requires
        site != other,
    ensures
        comes_back_at(left_at(memory, site, zoom), Some(site)) == zoom,
        comes_back_at(left_at(memory, site, zoom), Some(other)) == comes_back_at(
            memory,
            Some(other),
        ),
{
}

/// A site left at its own size is not remembered at all.
pub proof fn its_own_size_is_the_absence_of_an_entry(memory: Map<Seq<char>, u32>, site: Seq<char>)
    ensures
        !left_at(memory, site, OWN_SIZE).dom().contains(site),
{
}

/// The stops of the ladder, in hundredths of a page's own size.
pub proof fn the_stops_are_these(hundredths: u32)
    requires
        hundredths <= 1_000,
    ensures
        ladder().contains((hundredths * 10_000) as u32) <==> {
            ||| hundredths == 25 || hundredths == 33 || hundredths == 50 || hundredths == 67
            ||| hundredths == 75 || hundredths == 80 || hundredths == 90 || hundredths == 100
            ||| hundredths == 110 || hundredths == 125 || hundredths == 150 || hundredths == 175
            ||| hundredths == 200 || hundredths == 250 || hundredths == 300 || hundredths == 400
            ||| hundredths == 500
        },
        forall|i: int| 0 <= i < ladder().len() ==> #[trigger] ladder()[i] % 10_000 == 0,
{
    let stops = ladder();
    assert(stops[0] == 250_000 && stops[1] == 330_000 && stops[2] == 500_000 && stops[3] == 670_000);
    assert(stops[4] == 750_000 && stops[5] == 800_000 && stops[6] == 900_000 && stops[7]
        == 1_000_000);
    assert(stops[8] == 1_100_000 && stops[9] == 1_250_000 && stops[10] == 1_500_000 && stops[11]
        == 1_750_000);
    assert(stops[12] == 2_000_000 && stops[13] == 2_500_000 && stops[14] == 3_000_000 && stops[15]
        == 4_000_000);
    assert(stops[16] == 5_000_000);
}

/// A zoom is brought into the range from a quarter of a page's own size to five times it, and
/// one that is in it is left alone.
pub proof fn a_zoom_is_brought_into_range(zoom: u32)
    ensures
        250_000 <= clamped(zoom) <= 5_000_000,
        250_000 <= zoom <= 5_000_000 ==> clamped(zoom) == zoom,
        zoom < 250_000 ==> clamped(zoom) == 250_000,
        zoom > 5_000_000 ==> clamped(zoom) == 5_000_000,
        stepped(ZoomStep::Reset, zoom) == 1_000_000,
{
}

} // verus!
