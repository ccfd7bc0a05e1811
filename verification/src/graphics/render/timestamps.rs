//! GPU timestamp queries: real per-pass GPU time.
//!
//! Per frame: [`begin_frame`](GpuTimestamps::begin_frame), then the `_timed`
//! pass constructors of [`Frame`](crate::graphics::render::frame::Frame), then
//! its `resolve_timestamps`. What was resolved is read back in a later tick
//! and decoded here, in ticks of the GPU's clock.
use vstd::prelude::*;

use crate::graphics::types::DeviceFeatures;

verus! {

/// A pool of timestamp query pairs, one pair per timed pass; `Q` is the
/// backend's handle to the queries.
pub struct GpuTimestamps<Q> {
    set: Q,
    capacity: u32,
    labels: Vec<&'static str>,
    /// The labels as of the last resolve: what is read back is a frame behind.
    resolved: Vec<&'static str>,
}

/// What a pool is: its queries, how many scopes it has, and the labels of
/// those claimed in this frame and of those resolved last.
#[verifier::ext_equal]
pub struct TimestampsView<Q> {
    pub set: Q,
    pub capacity: u32,
    pub labels: Seq<&'static str>,
    pub resolved: Seq<&'static str>,
}

impl<Q> View for GpuTimestamps<Q> {
    type V = TimestampsView<Q>;

    closed spec fn view(&self) -> TimestampsView<Q> {
        TimestampsView {
            set: self.set,
            capacity: self.capacity,
            labels: self.labels@,
            resolved: self.resolved@,
        }
    }
}

impl<Q> TimestampsView<Q> {
    /// No more scopes are claimed than there are, and each query has an
    /// index.
    pub open spec fn wf(self) -> bool {
        &&& self.labels.len() <= self.capacity
        &&& self.capacity * 2 <= u32::MAX
    }
}

// ---------------------------------------------------------------------------
// Ticks
// ---------------------------------------------------------------------------

/// The number whose eight bytes begin at `at`, the lowest first.
pub open spec fn number_at(bytes: Seq<u8>, at: int) -> int {
    bytes[at] + bytes[at + 1] * 0x100 + bytes[at + 2] * 0x1_0000 + bytes[at + 3] * 0x100_0000
        + bytes[at + 4] * 0x1_0000_0000 + bytes[at + 5] * 0x100_0000_0000 + bytes[at + 6]
        * 0x1_0000_0000_0000 + bytes[at + 7] * 0x100_0000_0000_0000
}

/// The whole eight-byte numbers that `bytes` hold.
pub open spec fn ticks_of(bytes: Seq<u8>) -> Seq<u64> {
    Seq::new((bytes.len() / 8) as nat, |i: int| number_at(bytes, 8 * i) as u64)
}

/// The whole eight-byte numbers that `bytes` hold.
fn parse_ticks(bytes: &[u8]) -> (ticks: Vec<u64>)
    ensures
        ticks@ == ticks_of(bytes@),
{
    let mut ticks: Vec<u64> = Vec::new();
    let count: usize = bytes.len() / 8;
    let mut i: usize = 0;
    while i < count
        invariant
            i <= count,
            count == bytes@.len() / 8,
            bytes@.len() <= usize::MAX,
            ticks@ == ticks_of(bytes@).take(i as int),
        decreases count - i,
    {
        let at: usize = 8 * i;
        let low: u64 = bytes[at] as u64 + bytes[at + 1] as u64 * 0x100 + bytes[at + 2] as u64
            * 0x1_0000 + bytes[at + 3] as u64 * 0x100_0000;
        let high: u64 = bytes[at + 4] as u64 + bytes[at + 5] as u64 * 0x100 + bytes[at + 6] as u64
            * 0x1_0000 + bytes[at + 7] as u64 * 0x100_0000;
        ticks.push(low + high * 0x1_0000_0000);
        assert(ticks@ =~= ticks_of(bytes@).take(i + 1));
        i += 1;
    }
    assert(ticks_of(bytes@).take(i as int) =~= ticks_of(bytes@));
    ticks
}

/// The tick at which a scope began, if it was read back.
pub open spec fn has_begin(ticks: Seq<u64>, scope: int) -> bool {
    2 * scope < ticks.len()
}

/// Both ticks of a scope were read back.
pub open spec fn has_both(ticks: Seq<u64>, scope: int) -> bool {
    2 * scope + 1 < ticks.len()
}

/// A scope began, and when was read back: a tick of zero is none.
pub open spec fn began(ticks: Seq<u64>, scope: int) -> bool {
    has_begin(ticks, scope) && ticks[2 * scope] > 0
}

/// `base` is the earliest tick at which one of the first `scopes` scopes
/// began, or zero if none did.
pub open spec fn is_base(ticks: Seq<u64>, scopes: int, base: u64) -> bool {
    &&& forall|scope: int|
        0 <= scope < scopes && #[trigger] began(ticks, scope) ==> base <= ticks[2 * scope]
    &&& {
        ||| base == 0 && forall|scope: int| 0 <= scope < scopes ==> !#[trigger] began(ticks, scope)
        ||| exists|scope: int|
            0 <= scope < scopes && #[trigger] began(ticks, scope) && base == ticks[2 * scope]
    }
}

/// When the first `scopes` scopes began and ended, in ticks after `base`:
/// those that began and for which both ticks were read back, in recording
/// order. A scope that ended before it began (its end was never written) has
/// no length.
pub open spec fn intervals(
    labels: Seq<&'static str>,
    ticks: Seq<u64>,
    base: u64,
    scopes: nat,
) -> Seq<(&'static str, u64, u64)>
    decreases scopes,
{
    if scopes == 0 {
        Seq::empty()
    } else {
        let scope = scopes - 1;
        let earlier = intervals(labels, ticks, base, scope as nat);
        if has_both(ticks, scope) && ticks[2 * scope] != 0 {
            let begin = ticks[2 * scope];
            let end = ticks[2 * scope + 1];
            earlier.push(
                (
                    labels[scope],
                    (begin - base) as u64,
                    (if end < begin {
                        begin
                    } else {
                        end
                    } - base) as u64,
                ),
            )
        } else {
            earlier
        }
    }
}

/// How many ticks the first `scopes` scopes took: those for which both ticks
/// were read back and that advanced, in recording order.
pub open spec fn durations(
    labels: Seq<&'static str>,
    ticks: Seq<u64>,
    scopes: nat,
) -> Seq<(&'static str, u64)>
    decreases scopes,
{
    if scopes == 0 {
        Seq::empty()
    } else {
        let scope = scopes - 1;
        let earlier = durations(labels, ticks, scope as nat);
        if has_both(ticks, scope) && ticks[2 * scope + 1] > ticks[2 * scope] {
            earlier.push((labels[scope], (ticks[2 * scope + 1] - ticks[2 * scope]) as u64))
        } else {
            earlier
        }
    }
}

/// The earliest tick at which one of the first `scopes` scopes began.
fn find_base(ticks: &Vec<u64>, scopes: usize) -> (base: u64)
    ensures
        is_base(ticks@, scopes as int, base),
{
    let mut base: u64 = 0;
    let mut scope: usize = 0;
    while scope < scopes && scope < ticks.len() / 2 + ticks.len() % 2
        invariant
            scope <= scopes,
            is_base(ticks@, scope as int, base),
        ensures
            is_base(ticks@, scopes as int, base),
        decreases scopes - scope,
    {
        let tick: u64 = ticks[2 * scope];
        let ghost earlier = base;
        if tick > 0 && (base == 0 || tick < base) {
            base = tick;
        }
        proof {
            if tick > 0 {
                assert(began(ticks@, scope as int));
            }
            if earlier != 0 {
                let s = choose|s: int|
                    0 <= s < scope && #[trigger] began(ticks@, s) && earlier == ticks@[2 * s];
                assert(began(ticks@, s));
            }
        }
        scope += 1;
    }
    base
}

impl<Q> GpuTimestamps<Q> {
    /// A pool of `capacity` scopes, whose queries `create` allocates, two per
    /// scope. `None` if the device has no timestamp queries, which callers
    /// treat as "carry on unprofiled".
    pub fn new<F: FnOnce(u32) -> Q>(
        features: DeviceFeatures,
        capacity: u32,
        create: F,
    ) -> (timestamps: Option<Self>)
        requires
            features.timestamp_query ==> capacity * 2 <= u32::MAX,
            features.timestamp_query ==> call_requires(create, ((capacity * 2) as u32,)),
        ensures
            match timestamps {
                Some(pool) => {
                    &&& features.timestamp_query
                    &&& pool@.wf()
                    &&& pool@.capacity == capacity
                    &&& pool@.labels == Seq::<&'static str>::empty()
                    &&& pool@.resolved == Seq::<&'static str>::empty()
                    &&& call_ensures(create, ((capacity * 2) as u32,), pool@.set)
                },
                None => !features.timestamp_query,
            },
    {
        if !features.timestamp_query {
            return None;
        }
        let set = create(capacity * 2);
        Some(GpuTimestamps { set, capacity, labels: Vec::new(), resolved: Vec::new() })
    }

    /// How many bytes the buffer must have that queries are resolved into.
    pub fn resolve_size(&self) -> (size: u64)
        ensures
            size == self@.capacity * 16,
    {
        self.capacity as u64 * 2 * 8
    }

    /// Clears the last frame's scopes.
    pub fn begin_frame(&mut self)
        requires
            old(self)@.wf(),
        ensures
            final(self)@.wf(),
            final(self)@ == (TimestampsView { labels: Seq::empty(), ..old(self)@ }),
    {
        self.labels.clear();
        assert(self@.labels =~= Seq::empty());
    }

    /// Claims a scope, and returns its begin and end query. `None` once all
    /// are claimed.
    pub fn claim(&mut self, label: &'static str) -> (scope: Option<(u32, u32)>)
        requires
            old(self)@.wf(),
        ensures
            final(self)@.wf(),
            match scope {
                Some((begin, end)) => {
                    &&& old(self)@.labels.len() < old(self)@.capacity
                    &&& begin == 2 * old(self)@.labels.len()
                    &&& end == begin + 1
                    &&& final(self)@ == (TimestampsView {
                        labels: old(self)@.labels.push(label),
                        ..old(self)@
                    })
                },
                None => {
                    &&& old(self)@.labels.len() == old(self)@.capacity
                    &&& final(self)@ == old(self)@
                },
            },
    {
        if self.used() >= self.capacity {
            return None;
        }
        let begin: u32 = self.used() * 2;
        self.labels.push(label);
        Some((begin, begin + 1))
    }

    /// The queries.
    pub fn raw(&self) -> (set: &Q)
        ensures
            *set == self@.set,
    {
        &self.set
    }

    /// How many scopes have been claimed in this frame.
    pub fn used(&self) -> (used: u32)
        requires
            self@.wf(),
        ensures
            used == self@.labels.len(),
    {
        self.labels.len() as u32
    }

    /// Remembers the labels of this frame: those of the queries that are
    /// being resolved.
    pub fn snapshot_resolved(&mut self)
        requires
            old(self)@.wf(),
        ensures
            final(self)@.wf(),
            final(self)@ == (TimestampsView { resolved: old(self)@.labels, ..old(self)@ }),
    {
        let mut copied: Vec<&'static str> = Vec::new();
        let mut i: usize = 0;
        while i < self.labels.len()
            invariant
                i <= self.labels@.len(),
                copied@ == self.labels@.take(i as int),
            decreases self.labels.len() - i,
        {
            copied.push(self.labels[i]);
            assert(copied@ =~= self.labels@.take(i + 1));
            i += 1;
        }
        assert(self.labels@.take(i as int) =~= self.labels@);
        self.resolved = copied;
    }

    /// What was read back, as `(label, begin, end)` in recording order, both
    /// ends in ticks after the earliest begin.
    ///
    /// Scopes may overlap: a tile-based GPU processes the render passes of a
    /// frame as one batch, and each pass then brackets the whole batch.
    /// Intervals let the caller merge overlapping scopes.
    pub fn decode_intervals(&self, bytes: &[u8]) -> (decoded: Vec<(&'static str, u64, u64)>)
        ensures
            exists|base: u64|
                {
                    &&& #[trigger] is_base(
                        ticks_of(bytes@),
                        self@.resolved.len() as int,
                        base,
                    )
                    &&& decoded@ == intervals(
                        self@.resolved,
                        ticks_of(bytes@),
                        base,
                        self@.resolved.len(),
                    )
                },
    {
        let ticks = parse_ticks(bytes);
        let base: u64 = find_base(&ticks, self.resolved.len());
        let mut decoded: Vec<(&'static str, u64, u64)> = Vec::new();
        let mut scope: usize = 0;
        while scope < self.resolved.len()
            invariant
                scope <= self.resolved@.len(),
                is_base(ticks@, self.resolved@.len() as int, base),
                decoded@ == intervals(self.resolved@, ticks@, base, scope as nat),
            decreases self.resolved.len() - scope,
        {
            if scope < ticks.len() / 2 {
                let begin: u64 = ticks[2 * scope];
                let end: u64 = ticks[2 * scope + 1];
                if begin != 0 {
                    assert(began(ticks@, scope as int));
                    let end: u64 = if end < begin {
                        begin
                    } else {
                        end
                    };
                    decoded.push((self.resolved[scope], begin - base, end - base));
                }
            }
            scope += 1;
        }
        assert(is_base(ticks_of(bytes@), self@.resolved.len() as int, base));
        decoded
    }

    /// What was read back, as `(label, duration)` in recording order, in
    /// ticks. Scopes that did not advance are dropped: a backend may return
    /// zeroes for queries that it could not satisfy.
    pub fn decode(&self, bytes: &[u8]) -> (decoded: Vec<(&'static str, u64)>)
        ensures
            decoded@ == durations(self@.resolved, ticks_of(bytes@), self@.resolved.len()),
    {
        let ticks = parse_ticks(bytes);
        let mut decoded: Vec<(&'static str, u64)> = Vec::new();
        let mut scope: usize = 0;
        while scope < self.resolved.len()
            invariant
                scope <= self.resolved@.len(),
                decoded@ == durations(self.resolved@, ticks@, scope as nat),
            decreases self.resolved.len() - scope,
        {
            if scope < ticks.len() / 2 {
                let begin: u64 = ticks[2 * scope];
                let end: u64 = ticks[2 * scope + 1];
                if end > begin {
                    decoded.push((self.resolved[scope], end - begin));
                }
            }
            scope += 1;
        }
        decoded
    }
}

// ---------------------------------------------------------------------------
// Laws
// ---------------------------------------------------------------------------

/// The earliest begin is one number: two bases are the same.
pub proof fn law_the_base_is_unique(ticks: Seq<u64>, scopes: int, one: u64, other: u64)
    requires
        is_base(ticks, scopes, one),
        is_base(ticks, scopes, other),
    ensures
        one == other,
{
}

/// No interval ends before it begins.
pub proof fn law_intervals_end_no_earlier_than_they_begin(
    labels: Seq<&'static str>,
    ticks: Seq<u64>,
    base: u64,
    scopes: nat,
    of: nat,
    i: int,
)
    requires
        is_base(ticks, of as int, base),
        scopes <= of,
        0 <= i < intervals(labels, ticks, base, scopes).len(),
    ensures
        intervals(labels, ticks, base, scopes)[i].1 <= intervals(labels, ticks, base, scopes)[i].2,
    decreases scopes,
{
    if scopes > 0 {
        let scope = scopes - 1;
        let earlier = intervals(labels, ticks, base, scope as nat);
        if has_both(ticks, scope) && ticks[2 * scope] != 0 {
            assert(began(ticks, scope));
        }
        if i < earlier.len() {
            law_intervals_end_no_earlier_than_they_begin(
                labels,
                ticks,
                base,
                scope as nat,
                of,
                i,
            );
        }
    }
}

/// Both queries of the first `scopes` scopes were written and read back.
pub open spec fn all_measured(ticks: Seq<u64>, scopes: nat) -> bool {
    forall|scope: int|
        0 <= scope < scopes ==> #[trigger] began(ticks, scope) && has_both(ticks, scope)
}

/// If both queries of every scope were written and read back, every scope is
/// reported, under its own label and in its place, with its begin.
pub proof fn law_every_measured_scope_is_reported(
    labels: Seq<&'static str>,
    ticks: Seq<u64>,
    base: u64,
    scopes: nat,
    scope: int,
)
    requires
        0 <= scope < scopes <= labels.len(),
        all_measured(ticks, scopes),
    ensures
        intervals(labels, ticks, base, scopes).len() == scopes,
        intervals(labels, ticks, base, scopes)[scope].0 == labels[scope],
        intervals(labels, ticks, base, scopes)[scope].1 == (ticks[2 * scope] - base) as u64,
    decreases scopes,
{
    assert(began(ticks, scopes - 1));
    reveal_with_fuel(intervals, 2);
    if scopes > 1 {
        let fewer = (scopes - 1) as nat;
        if scope < fewer {
            law_every_measured_scope_is_reported(labels, ticks, base, fewer, scope);
        } else {
            law_every_measured_scope_is_reported(labels, ticks, base, fewer, 0);
        }
    }
}

/// If both queries of every scope were written and read back, the first scope
/// to begin begins at zero.
pub proof fn law_the_earliest_scope_begins_at_zero(
    labels: Seq<&'static str>,
    ticks: Seq<u64>,
    base: u64,
    scopes: nat,
)
    requires
        0 < scopes <= labels.len(),
        is_base(ticks, scopes as int, base),
        all_measured(ticks, scopes),
    ensures
        exists|scope: int|
            0 <= scope < scopes && (#[trigger] intervals(labels, ticks, base, scopes)[scope]).1
                == 0,
{
    assert(began(ticks, 0));
    let scope = choose|scope: int|
        0 <= scope < scopes && #[trigger] began(ticks, scope) && base == ticks[2 * scope];
    law_every_measured_scope_is_reported(labels, ticks, base, scopes, scope);
    assert(intervals(labels, ticks, base, scopes)[scope].1 == 0);
}

/// Scopes that are claimed in one frame have different queries, all of them
/// within the pool.
pub proof fn law_claimed_scopes_have_their_own_queries<Q>(
    pool: TimestampsView<Q>,
    earlier: nat,
    later: nat,
)
    requires
        pool.wf(),
        earlier < later < pool.labels.len(),
    ensures
        2 * earlier + 1 < 2 * later,
        2 * later + 1 < pool.capacity * 2,
{
}

/// Every eight whole bytes are one tick, the first byte counting least; bytes
/// left over at the end are none.
pub proof fn law_eight_bytes_are_one_tick(bytes: Seq<u8>, i: int)
    requires
        0 <= i < bytes.len() / 8,
    ensures
        ticks_of(bytes).len() == bytes.len() / 8,
        ticks_of(bytes)[i] == bytes[8 * i] + 0x100 * (bytes[8 * i + 1] + 0x100 * (bytes[8 * i + 2]
            + 0x100 * (bytes[8 * i + 3] + 0x100 * (bytes[8 * i + 4] + 0x100 * (bytes[8 * i + 5]
            + 0x100 * (bytes[8 * i + 6] + 0x100 * bytes[8 * i + 7])))))),
{
}

/// Times count from the earliest begin that was read back: the base is no
/// later than any of them, and is one of them. A begin of zero, or one that
/// was not read back, does not count, and without any the base is zero.
pub proof fn law_the_base_is_the_earliest_begin(ticks: Seq<u64>, scopes: int, base: u64)
    requires
        is_base(ticks, scopes, base),
    ensures
        forall|scope: int|
            0 <= scope < scopes && 2 * scope < ticks.len() && #[trigger] ticks[2 * scope] > 0
                ==> base <= ticks[2 * scope],
        base != 0 ==> exists|scope: int|
            0 <= scope < scopes && 2 * scope < ticks.len() && #[trigger] ticks[2 * scope] == base,
        base == 0 ==> forall|scope: int|
            0 <= scope < scopes && 2 * scope < ticks.len() ==> #[trigger] ticks[2 * scope] == 0,
{
    assert forall|scope: int|
        0 <= scope < scopes && 2 * scope < ticks.len() && #[trigger] ticks[2 * scope]
            > 0 implies base <= ticks[2 * scope] && base != 0 by {
        assert(began(ticks, scope));
    }
    if base != 0 {
        let scope = choose|scope: int|
            0 <= scope < scopes && #[trigger] began(ticks, scope) && base == ticks[2 * scope];
        assert(ticks[2 * scope] == base);
    }
}

/// Exactly the scopes that began and were read back whole are reported as
/// intervals, in the order of recording: `reported` lists them. Each comes
/// under its own label, from its begin to its end, in ticks after the base,
/// and an end before the begin counts as the begin.
pub proof fn law_intervals_report_the_scopes_that_began(
    labels: Seq<&'static str>,
    ticks: Seq<u64>,
    base: u64,
    scopes: nat,
    of: nat,
) -> (reported: Seq<int>)
    requires
        is_base(ticks, of as int, base),
        scopes <= of,
        scopes <= labels.len(),
    ensures
        reported.len() == intervals(labels, ticks, base, scopes).len(),
        forall|i: int| 0 <= i < reported.len() ==> 0 <= #[trigger] reported[i] < scopes,
        forall|i: int, j: int|
            0 <= i < j < reported.len() ==> #[trigger] reported[i] < #[trigger] reported[j],
        forall|scope: int|
            0 <= scope < scopes ==> (#[trigger] reported.contains(scope) <==> 2 * scope + 1
                < ticks.len() && ticks[2 * scope] != 0),
        forall|i: int|
            0 <= i < reported.len() ==> {
                let begin = ticks[2 * reported[i]];
                let end = ticks[2 * reported[i] + 1];
                let interval = #[trigger] intervals(labels, ticks, base, scopes)[i];
                &&& interval.0 == labels[reported[i]]
                &&& interval.1 + base == begin
                &&& end >= begin ==> interval.2 + base == end
                &&& end < begin ==> interval.2 == interval.1
            },
    decreases scopes,
{
    if scopes == 0 {
        Seq::empty()
    } else {
        let scope = scopes - 1;
        let before = law_intervals_report_the_scopes_that_began(
            labels,
            ticks,
            base,
            scope as nat,
            of,
        );
        if 2 * scope + 1 < ticks.len() && ticks[2 * scope] != 0 {
            assert(has_both(ticks, scope));
            assert(began(ticks, scope));
            let reported = before.push(scope);
            assert forall|s: int| 0 <= s < scopes implies (#[trigger] reported.contains(s) <==> 2
                * s + 1 < ticks.len() && ticks[2 * s] != 0) by {
                if s == scope {
                    assert(reported[before.len() as int] == s);
                } else {
                    if before.contains(s) {
                        let k = choose|k: int| 0 <= k < before.len() && before[k] == s;
                        assert(reported[k] == s);
                    }
                    if reported.contains(s) {
                        let k = choose|k: int| 0 <= k < reported.len() && reported[k] == s;
                        assert(before[k] == s);
                    }
                }
            }
            assert forall|i: int| 0 <= i < reported.len() implies {
                let begin = ticks[2 * reported[i]];
                let end = ticks[2 * reported[i] + 1];
                let interval = #[trigger] intervals(labels, ticks, base, scopes)[i];
                &&& interval.0 == labels[reported[i]]
                &&& interval.1 + base == begin
                &&& end >= begin ==> interval.2 + base == end
                &&& end < begin ==> interval.2 == interval.1
            } by {
                if i < before.len() {
                    assert(intervals(labels, ticks, base, scopes)[i] == intervals(
                        labels,
                        ticks,
                        base,
                        scope as nat,
                    )[i]);
                }
            }
            reported
        } else {
            before
        }
    }
}

/// Exactly the scopes that were read back whole and advanced are reported with
/// a duration, in the order of recording: `reported` lists them. Each comes
/// under its own label, with the ticks from its begin to its end.
pub proof fn law_durations_report_the_scopes_that_advanced(
    labels: Seq<&'static str>,
    ticks: Seq<u64>,
    scopes: nat,
) -> (reported: Seq<int>)
    requires
        scopes <= labels.len(),
    ensures
        reported.len() == durations(labels, ticks, scopes).len(),
        forall|i: int| 0 <= i < reported.len() ==> 0 <= #[trigger] reported[i] < scopes,
        forall|i: int, j: int|
            0 <= i < j < reported.len() ==> #[trigger] reported[i] < #[trigger] reported[j],
        forall|scope: int|
            0 <= scope < scopes ==> (#[trigger] reported.contains(scope) <==> 2 * scope + 1
                < ticks.len() && ticks[2 * scope] < ticks[2 * scope + 1]),
        forall|i: int|
            0 <= i < reported.len() ==> {
                let duration = #[trigger] durations(labels, ticks, scopes)[i];
                &&& duration.0 == labels[reported[i]]
                &&& duration.1 + ticks[2 * reported[i]] == ticks[2 * reported[i] + 1]
            },
    decreases scopes,
{
    if scopes == 0 {
        Seq::empty()
    } else {
        let scope = scopes - 1;
        let before = law_durations_report_the_scopes_that_advanced(labels, ticks, scope as nat);
        if 2 * scope + 1 < ticks.len() && ticks[2 * scope] < ticks[2 * scope + 1] {
            assert(has_both(ticks, scope));
            let reported = before.push(scope);
            assert forall|s: int| 0 <= s < scopes implies (#[trigger] reported.contains(s) <==> 2
                * s + 1 < ticks.len() && ticks[2 * s] < ticks[2 * s + 1]) by {
                if s == scope {
                    assert(reported[before.len() as int] == s);
                } else {
                    if before.contains(s) {
                        let k = choose|k: int| 0 <= k < before.len() && before[k] == s;
                        assert(reported[k] == s);
                    }
                    if reported.contains(s) {
                        let k = choose|k: int| 0 <= k < reported.len() && reported[k] == s;
                        assert(before[k] == s);
                    }
                }
            }
            assert forall|i: int| 0 <= i < reported.len() implies {
                let duration = #[trigger] durations(labels, ticks, scopes)[i];
                &&& duration.0 == labels[reported[i]]
                &&& duration.1 + ticks[2 * reported[i]] == ticks[2 * reported[i] + 1]
            } by {
                if i < before.len() {
                    assert(durations(labels, ticks, scopes)[i] == durations(
                        labels,
                        ticks,
                        scope as nat,
                    )[i]);
                }
            }
            reported
        } else {
            before
        }
    }
}

// ---------------------------------------------------------------------------
// Laws of the operations
// ---------------------------------------------------------------------------

/// There is a pool exactly if the device has timestamp queries. It has two
/// queries per scope, no scope is claimed at first, and what it resolves takes
/// eight bytes per query.
pub proof fn law_a_pool_has_two_queries_per_scope<Q, F: FnOnce(u32) -> Q>(
    features: DeviceFeatures,
    capacity: u32,
    create: F,
    pool: Option<GpuTimestamps<Q>>,
    size: u64,
)
    requires
        call_ensures(GpuTimestamps::<Q>::new::<F>, (features, capacity, create), pool),
        pool is Some ==> call_ensures(
            GpuTimestamps::<Q>::resolve_size,
            (&pool->Some_0,),
            size,
        ),
    ensures
        pool is Some <==> features.timestamp_query,
        pool is Some ==> {
            &&& pool->Some_0@.capacity == capacity
            &&& pool->Some_0@.labels.len() == 0
            &&& pool->Some_0@.resolved.len() == 0
            &&& call_ensures(create, ((2 * capacity) as u32,), pool->Some_0@.set)
            &&& size == 8 * (2 * capacity)
        },
{
}

/// A claim takes the next two queries, as long as there are any, and keeps the
/// label in its place.
pub proof fn law_a_claim_takes_the_next_two_queries<Q>(
    pool: &mut GpuTimestamps<Q>,
    label: &'static str,
    scope: Option<(u32, u32)>,
)
    requires
        old(pool)@.wf(),
        call_ensures(GpuTimestamps::<Q>::claim, (pool, label), scope),
    ensures
        scope is Some <==> old(pool)@.labels.len() < old(pool)@.capacity,
        scope is Some ==> {
            &&& scope->Some_0.0 == 2 * old(pool)@.labels.len()
            &&& scope->Some_0.1 == scope->Some_0.0 + 1
            &&& scope->Some_0.1 < 2 * old(pool)@.capacity
            &&& final(pool)@.labels.len() == old(pool)@.labels.len() + 1
            &&& final(pool)@.labels.drop_last() == old(pool)@.labels
            &&& final(pool)@.labels.last() == label
        },
        scope is None ==> final(pool)@.labels == old(pool)@.labels,
        final(pool)@.resolved == old(pool)@.resolved,
        final(pool)@.capacity == old(pool)@.capacity,
        final(pool)@.set == old(pool)@.set,
{
    if scope is Some {
        assert(final(pool)@.labels.drop_last() =~= old(pool)@.labels);
    }
}

/// A new frame has no scopes, but what was resolved last can still be read
/// back.
pub proof fn law_a_new_frame_claims_anew<Q>(
    pool: &mut GpuTimestamps<Q>,
    resolving: &mut GpuTimestamps<Q>,
    used: u32,
)
    requires
        call_ensures(GpuTimestamps::<Q>::begin_frame, (pool,), ()),
        call_ensures(GpuTimestamps::<Q>::snapshot_resolved, (resolving,), ()),
        call_ensures(GpuTimestamps::<Q>::used, (&*old(pool),), used),
    ensures
        used == old(pool)@.labels.len(),
        final(pool)@.labels.len() == 0,
        final(pool)@.resolved == old(pool)@.resolved,
        final(pool)@.capacity == old(pool)@.capacity,
        final(pool)@.set == old(pool)@.set,
        final(resolving)@.resolved == old(resolving)@.labels,
        final(resolving)@.labels == old(resolving)@.labels,
        final(resolving)@.capacity == old(resolving)@.capacity,
        final(resolving)@.set == old(resolving)@.set,
{
}

/// What is decoded are the scopes that were resolved, began, and were read
/// back whole, in the order of recording: `reported` lists them. Each comes
/// under its own label with its begin and end, which count from the earliest
/// begin of all, and none ends before it begins.
pub proof fn law_decoding_intervals<Q>(
    pool: &GpuTimestamps<Q>,
    bytes: &[u8],
    decoded: Vec<(&'static str, u64, u64)>,
) -> (reported: Seq<int>)
    requires
        call_ensures(GpuTimestamps::<Q>::decode_intervals, (pool, bytes), decoded),
    ensures
        reported.len() == decoded@.len(),
        forall|i: int|
            0 <= i < reported.len() ==> 0 <= #[trigger] reported[i] < pool@.resolved.len(),
        forall|i: int, j: int|
            0 <= i < j < reported.len() ==> #[trigger] reported[i] < #[trigger] reported[j],
        forall|scope: int|
            0 <= scope < pool@.resolved.len() ==> (#[trigger] reported.contains(scope) <==> 16
                * scope + 15 < bytes@.len() && ticks_of(bytes@)[2 * scope] != 0),
        forall|i: int|
            0 <= i < reported.len() ==> (#[trigger] decoded@[i]).0
                == pool@.resolved[reported[i]] && decoded@[i].1 <= decoded@[i].2,
        forall|i: int, j: int|
            0 <= i < reported.len() && 0 <= j < reported.len() ==> {
                let ticks = ticks_of(bytes@);
                (#[trigger] decoded@[i]).1 - (#[trigger] decoded@[j]).1 == ticks[2 * reported[i]]
                    - ticks[2 * reported[j]]
            },
        forall|i: int|
            0 <= i < reported.len() ==> {
                let ticks = ticks_of(bytes@);
                let begin = ticks[2 * reported[i]];
                let end = ticks[2 * reported[i] + 1];
                (#[trigger] decoded@[i]).2 - decoded@[i].1 == if end >= begin {
                    end - begin
                } else {
                    0
                }
            },
{
    let ticks = ticks_of(bytes@);
    let scopes = pool@.resolved.len();
    let base = choose|base: u64|
        {
            &&& #[trigger] is_base(ticks, scopes as int, base)
            &&& decoded@ == intervals(pool@.resolved, ticks, base, scopes)
        };
    let reported = law_intervals_report_the_scopes_that_began(
        pool@.resolved,
        ticks,
        base,
        scopes,
        scopes,
    );
    assert forall|i: int| 0 <= i < reported.len() implies {
        let begin = ticks[2 * reported[i]];
        let end = ticks[2 * reported[i] + 1];
        &&& (#[trigger] decoded@[i]).0 == pool@.resolved[reported[i]]
        &&& decoded@[i].1 + base == begin
        &&& end >= begin ==> decoded@[i].2 + base == end
        &&& end < begin ==> decoded@[i].2 == decoded@[i].1
    } by {
        assert(decoded@[i] == intervals(pool@.resolved, ticks, base, scopes)[i]);
    }
    reported
}

/// What is decoded as durations are the scopes that were resolved, were read
/// back whole, and advanced, in the order of recording: `reported` lists them.
/// Each comes under its own label with its length.
pub proof fn law_decoding_durations<Q>(
    pool: &GpuTimestamps<Q>,
    bytes: &[u8],
    decoded: Vec<(&'static str, u64)>,
) -> (reported: Seq<int>)
    requires
        call_ensures(GpuTimestamps::<Q>::decode, (pool, bytes), decoded),
    ensures
        reported.len() == decoded@.len(),
        forall|i: int|
            0 <= i < reported.len() ==> 0 <= #[trigger] reported[i] < pool@.resolved.len(),
        forall|i: int, j: int|
            0 <= i < j < reported.len() ==> #[trigger] reported[i] < #[trigger] reported[j],
        forall|scope: int|
            0 <= scope < pool@.resolved.len() ==> (#[trigger] reported.contains(scope) <==> 16
                * scope + 15 < bytes@.len() && ticks_of(bytes@)[2 * scope] < ticks_of(bytes@)[2
                * scope + 1]),
        forall|i: int|
            0 <= i < reported.len() ==> {
                let ticks = ticks_of(bytes@);
                &&& (#[trigger] decoded@[i]).0 == pool@.resolved[reported[i]]
                &&& decoded@[i].1 == ticks[2 * reported[i] + 1] - ticks[2 * reported[i]]
                &&& decoded@[i].1 > 0
            },
{
    let ticks = ticks_of(bytes@);
    let scopes = pool@.resolved.len();
    let reported = law_durations_report_the_scopes_that_advanced(pool@.resolved, ticks, scopes);
    assert forall|i: int| 0 <= i < reported.len() implies {
        &&& (#[trigger] decoded@[i]).0 == pool@.resolved[reported[i]]
        &&& decoded@[i].1 == ticks[2 * reported[i] + 1] - ticks[2 * reported[i]]
        &&& decoded@[i].1 > 0
    } by {
        assert(decoded@[i] == durations(pool@.resolved, ticks, scopes)[i]);
        assert(reported.contains(reported[i]));
    }
    reported
}

/// The queries that are handed out are those of the pool.
pub proof fn law_a_pool_hands_out_its_queries<Q>(pool: &GpuTimestamps<Q>, set: &Q)
    requires
        call_ensures(GpuTimestamps::<Q>::raw, (pool,), set),
    ensures
        *set == pool@.set,
{
}

} // verus!
