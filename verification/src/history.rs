//! The window of recent block heights whose transactions the node knows.

use crate::clock::{clock_gave, now_millis, readings_come_from_the_clock};
use std::collections::HashSet;
use vstd::prelude::*;

verus! {

broadcast use {readings_come_from_the_clock, vstd::std_specs::hash::group_hash_axioms};

/// How many of the most recent heights are kept.
pub const BLOCKLIMIT: u64 = 100;

/// How long, in milliseconds, a node waits before it asks again for the blocks it lacks.
pub const REQUEST_INTERVAL: u64 = 3000;

/// The lowest height of the window that ends at `max`.
pub open spec fn window_start(max: u64) -> u64 {
    if max > BLOCKLIMIT {
        (max - BLOCKLIMIT + 1) as u64
    } else {
        0
    }
}

/// Every height from `min` up to, but not including, `max` is in `heights`.
pub open spec fn complete(heights: Set<u64>, min: u64, max: u64) -> bool {
    forall|i: u64| min <= i < max ==> #[trigger] heights.contains(i)
}

/// What a [`HistoryHeights`] stands for.
#[verifier::ext_equal]
pub struct HistoryView {
    pub heights: Set<u64>,
    pub max_height: u64,
    pub min_height: u64,
    pub is_init: bool,
    pub last_timestamp: u64,
}

impl HistoryView {
    /// Nothing recorded yet, nothing asked for yet.
    pub open spec fn empty() -> HistoryView {
        HistoryView {
            heights: Set::empty(),
            max_height: 0,
            min_height: 0,
            is_init: false,
            last_timestamp: 0,
        }
    }

    /// The window reaches from `window_start(max_height)` to `max_height`, holds every recorded
    /// height, and is initialised exactly when something was recorded and no height below
    /// `max_height` is missing.
    pub open spec fn well_formed(self) -> bool {
        &&& self.min_height == window_start(self.max_height)
        &&& forall|i: u64| #[trigger]
            self.heights.contains(i) ==> self.min_height <= i <= self.max_height
        &&& self.heights.contains(self.max_height) || self == (HistoryView {
            last_timestamp: self.last_timestamp,
            ..HistoryView::empty()
        })
        &&& self.is_init <==> self.heights.contains(self.max_height) && complete(
            self.heights,
            self.min_height,
            self.max_height,
        )
    }

    /// The history after the block of `height` was seen: a height below the window is ignored, a
    /// height above it moves the window up and drops what falls out.
    pub open spec fn record(self, height: u64) -> HistoryView {
        if height < self.min_height {
            self
        } else {
            let max_height = if height > self.max_height {
                height
            } else {
                self.max_height
            };
            let min_height = if height > self.max_height {
                window_start(height)
            } else {
                self.min_height
            };
            let heights = self.heights.insert(height).filter(
                |i: u64| !(self.min_height <= i < min_height),
            );
            HistoryView {
                heights,
                max_height,
                min_height,
                is_init: complete(heights, min_height, max_height),
                last_timestamp: self.last_timestamp,
            }
        }
    }

    /// The histories after a run of blocks was seen, in the order given.
    pub open spec fn record_all(self, heights: Seq<u64>) -> HistoryView
        decreases heights.len(),
    {
        if heights.len() == 0 {
            self
        } else {
            self.record_all(heights.drop_last()).record(heights.last())
        }
    }

    /// The history after a request for missing blocks at `now`.
    pub open spec fn stamped(self, now: u64) -> HistoryView {
        HistoryView { last_timestamp: now, ..self }
    }

    /// At `now`, less than `REQUEST_INTERVAL` has passed since the last request.
    pub open spec fn too_frequent(self, now: u64) -> bool {
        now < self.last_timestamp + REQUEST_INTERVAL
    }
}

#[derive(Debug)]
pub struct HistoryHeights {
    heights: HashSet<u64>,
    max_height: u64,
    min_height: u64,
    is_init: bool,
    last_timestamp: u64,
}

impl View for HistoryHeights {
    type V = HistoryView;

    closed spec fn view(&self) -> HistoryView {
        HistoryView {
            heights: self.heights@,
            max_height: self.max_height,
            min_height: self.min_height,
            is_init: self.is_init,
            last_timestamp: self.last_timestamp,
        }
    }
}

impl HistoryHeights {
    pub fn new() -> (history: Self)
        ensures
            history@ == HistoryView::empty(),
            history@.well_formed(),
    {
        HistoryHeights {
            heights: HashSet::new(),
            max_height: 0,
            min_height: 0,
            is_init: false,
            last_timestamp: 0,
        }
    }

    /// Forgets everything.
    pub fn reset(&mut self)
        ensures
            final(self)@ == HistoryView::empty(),
            final(self)@.well_formed(),
    {
        self.heights.clear();
        self.max_height = 0;
        self.min_height = 0;
        self.is_init = false;
        self.last_timestamp = 0;
    }

    /// Records that the block of `height` was seen.
    pub fn update_height(&mut self, height: u64)
        requires
            old(self)@.well_formed(),
        ensures
            final(self)@ == old(self)@.record(height),
            final(self)@.well_formed(),
    {
        if height < self.min_height {
            return;
        } else if height > self.max_height {
            self.max_height = height;
            let old_min_height = self.min_height;
            self.min_height = if height > BLOCKLIMIT {
                height - BLOCKLIMIT + 1
            } else {
                0
            };
            self.heights.insert(height);
            let mut i: u64 = old_min_height;
            let ghost moved = self@;
            while i < self.min_height
                invariant
                    old_min_height <= i <= self.min_height,
                    self@ == (HistoryView {
                        heights: moved.heights.filter(|j: u64| !(old_min_height <= j < i)),
                        ..moved
                    }),
                decreases self.min_height - i,
            {
                self.heights.remove(&i);
                i += 1;
            }
        } else {
            self.heights.insert(height);
        }
        let mut is_init = true;
        let mut i: u64 = self.min_height;
        while i < self.max_height
            invariant_except_break
                is_init,
                self.min_height <= i,
                forall|j: u64|
                    self.min_height <= j < i ==> #[trigger] self.heights@.contains(j),
            ensures
                is_init == complete(self.heights@, self.min_height, self.max_height),
            decreases self.max_height - i,
        {
            if !self.heights.contains(&i) {
                is_init = false;
                break ;
            }
            i += 1;
        }
        self.is_init = is_init;
    }

    /// The height of the block that comes next.
    pub fn next_height(&self) -> (height: u64)
        requires
            self@.max_height < u64::MAX,
        ensures
            height == self@.max_height + 1,
    {
        self.max_height + 1
    }

    pub fn is_init(&self) -> (is_init: bool)
        ensures
            is_init == self@.is_init,
    {
        self.is_init
    }

    pub fn max_height(&self) -> (height: u64)
        ensures
            height == self@.max_height,
    {
        self.max_height
    }

    pub fn min_height(&self) -> (height: u64)
        ensures
            height == self@.min_height,
    {
        self.min_height
    }

    /// Whether the last request for missing blocks is too recent for another one now.
    ///
    /// The answer rests on the clock: it is the one that
    /// [`is_too_frequent_at`](Self::is_too_frequent_at) gives for the moment of the call.
    pub fn is_too_frequent(&self) -> (too_frequent: bool)
        ensures
            exists|now: u64| #[trigger]
                clock_gave(now) && too_frequent == self@.too_frequent(now),
    {
        let now: u64 = now_millis();
        self.is_too_frequent_at(now)
    }

    /// Whether, at `now`, the last request for missing blocks is less than `REQUEST_INTERVAL` old.
    pub fn is_too_frequent_at(&self, now: u64) -> (too_frequent: bool)
        ensures
            too_frequent == self@.too_frequent(now),
    {
        now < self.last_timestamp || now - self.last_timestamp < REQUEST_INTERVAL
    }

    /// Notes that missing blocks are requested now.
    pub fn update_time_stamp(&mut self)
        ensures
            exists|now: u64| #[trigger]
                clock_gave(now) && final(self)@ == old(self)@.stamped(now),
            old(self)@.well_formed() ==> final(self)@.well_formed(),
    {
        let now: u64 = now_millis();
        self.update_time_stamp_at(now);
        assert(self@ == old(self)@.stamped(now));
    }

    /// Notes that missing blocks are requested at `now`.
    pub fn update_time_stamp_at(&mut self, now: u64)
        ensures
            final(self)@ == old(self)@.stamped(now),
            old(self)@.well_formed() ==> final(self)@.well_formed(),
    {
        self.last_timestamp = now;
    }
}

/// The window never holds more than `BLOCKLIMIT` heights below its top, and its bounds are in
/// order.
pub proof fn window_is_bounded(history: HistoryView)
    requires
        history.well_formed(),
    ensures
        history.min_height <= history.max_height,
        history.max_height - history.min_height <= BLOCKLIMIT,
        history.max_height > BLOCKLIMIT ==> history.max_height - history.min_height
            == BLOCKLIMIT - 1,
{
}

/// Recording keeps the history well formed, never lowers the window, and changes nothing else.
pub proof fn record_keeps_window(history: HistoryView, height: u64)
    requires
        history.well_formed(),
    ensures
        history.record(height).well_formed(),
        history.record(height).max_height >= history.max_height,
        history.record(height).max_height >= height || height < history.min_height,
        history.record(height).min_height >= history.min_height,
        history.record(height).last_timestamp == history.last_timestamp,
{
}

/// What recording a height does, said of the fields: a height below the window is ignored; any other
/// is recorded, moves the top up if it is above it, and leaves in the window the hundred heights up to
/// the top, or all of them while the top is at most one hundred. The history is initialised exactly
/// if no height from the bottom of the window up to the top is missing.
pub proof fn record_is_as_described(history: HistoryView, height: u64)
    requires
        history.well_formed(),
    ensures
        ({
            let after = history.record(height);
            &&& height < history.min_height ==> after == history
            &&& height >= history.min_height ==> {
                &&& after.max_height == if height > history.max_height {
                    height
                } else {
                    history.max_height
                }
                &&& after.min_height == if after.max_height > 100 {
                    after.max_height - 99
                } else {
                    0
                }
                &&& forall|h: u64| #[trigger]
                    after.heights.contains(h) <==> (h == height || history.heights.contains(h)) && h
                        >= after.min_height
                &&& after.is_init <==> forall|h: u64|
                    after.min_height <= h < after.max_height ==> #[trigger] after.heights.contains(h)
            }
            &&& after.last_timestamp == history.last_timestamp
        }),
{
    let after = history.record(height);
    if height >= history.min_height {
        assert forall|h: u64| #[trigger] after.heights.contains(h) <==> (h == height
            || history.heights.contains(h)) && h >= after.min_height by {}
        assert(after.is_init == complete(after.heights, after.min_height, after.max_height));
    }
}

/// A request for missing blocks is too frequent exactly within three seconds of the last one; noting
/// one changes the time and nothing else; and a node that has never asked may ask from three seconds
/// after the beginning of time on.
pub proof fn requests_are_three_seconds_apart(history: HistoryView, now: u64, stamp: u64)
    ensures
        history.too_frequent(now) <==> now - history.last_timestamp < 3000,
        history.stamped(stamp).last_timestamp == stamp,
        history.stamped(stamp) == (HistoryView { last_timestamp: stamp, ..history }),
        HistoryView::empty().too_frequent(now) <==> now < 3000,
{
}

/// Seeing a block again changes nothing.
pub proof fn record_is_idempotent(history: HistoryView, height: u64)
    requires
        history.well_formed(),
    ensures
        history.record(height).record(height) == history.record(height),
{
    let once = history.record(height);
    record_keeps_window(history, height);
    if height >= history.min_height {
        assert(once.record(height).heights =~= once.heights);
    }
}

/// The order in which two blocks are seen does not matter.
pub proof fn order_of_two_blocks_does_not_matter(history: HistoryView, a: u64, b: u64)
    requires
        history.well_formed(),
    ensures
        history.record(a).record(b) == history.record(b).record(a),
{
    record_keeps_window(history, a);
    record_keeps_window(history, b);
    let ab = history.record(a).record(b);
    let ba = history.record(b).record(a);
    assert(ab.heights =~= ba.heights);
}

/// An initialised history stays initialised when the next block arrives.
pub proof fn next_block_keeps_init(history: HistoryView)
    requires
        history.well_formed(),
        history.is_init,
        history.max_height < u64::MAX,
    ensures
        history.record((history.max_height + 1) as u64).is_init,
        history.record((history.max_height + 1) as u64).max_height == history.max_height + 1,
{
    let next = (history.max_height + 1) as u64;
    let after = history.record(next);
    assert forall|i: u64| after.min_height <= i < after.max_height implies #[trigger]
        after.heights.contains(i) by {
        assert(history.heights.contains(i));
    }
}

/// A jump over one or more heights leaves the history uninitialised.
pub proof fn gap_loses_init(history: HistoryView, height: u64)
    requires
        history.well_formed(),
        height > history.max_height + 1,
    ensures
        !history.record(height).is_init,
{
    let after = history.record(height);
    let missing = (height - 1) as u64;
    assert(!after.heights.contains(missing));
    assert(after.min_height <= missing < after.max_height);
}

/// Recording heights that are not above the top, in any order and with any repetition, leaves the
/// bounds where they are and adds exactly those that lie in the window.
pub proof fn record_all_below(history: HistoryView, seen: Seq<u64>)
    requires
        history.well_formed(),
        forall|i: int| 0 <= i < seen.len() ==> #[trigger] seen[i] <= history.max_height,
    ensures
        history.record_all(seen).well_formed(),
        history.record_all(seen).max_height == history.max_height,
        history.record_all(seen).min_height == history.min_height,
        forall|h: u64| #[trigger]
            history.record_all(seen).heights.contains(h) <==> history.heights.contains(h) || (
            seen.contains(h) && h >= history.min_height),
    decreases seen.len(),
{
    if seen.len() > 0 {
        let before = seen.drop_last();
        record_all_below(history, before);
        record_keeps_window(history.record_all(before), seen.last());
        assert forall|h: u64| seen.contains(h) <==> before.contains(h) || h == seen.last() by {
            if seen.contains(h) {
                let i = choose|i: int| 0 <= i < seen.len() && seen[i] == h;
                if i < before.len() {
                    assert(before[i] == h);
                }
            }
            if before.contains(h) {
                let i = choose|i: int| 0 <= i < before.len() && before[i] == h;
                assert(seen[i] == h);
            }
            assert(seen[seen.len() - 1] == seen.last());
        }
    }
}

/// Once every height that was missing below the top has been recorded, in any order, the history
/// is initialised.
pub proof fn filling_the_window_initialises(history: HistoryView, seen: Seq<u64>)
    requires
        history.well_formed(),
        history.heights.contains(history.max_height),
        forall|i: int| 0 <= i < seen.len() ==> #[trigger] seen[i] <= history.max_height,
        forall|h: u64|
            history.min_height <= h < history.max_height ==> #[trigger] history.heights.contains(h)
                || seen.contains(h),
    ensures
        history.record_all(seen).is_init,
        history.record_all(seen).max_height == history.max_height,
{
    record_all_below(history, seen);
}

/// After a request at `asked`, another one is too frequent for exactly `REQUEST_INTERVAL`.
pub proof fn stamp_starts_interval(history: HistoryView, asked: u64, now: u64)
    ensures
        history.stamped(asked).too_frequent(now) <==> now - asked < REQUEST_INTERVAL,
{
}

} // verus!
