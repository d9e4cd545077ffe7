//! Sheet construction: merging tracks into one time-ordered event stream.
//!
//! A sheet pairs every event with its absolute tick offset and the
//! 1-based track it came from. Sequential construction concatenates
//! tracks end to end, each following track starting one tick past the
//! previous track's declared end (its end-of-track event's tick), so
//! strictly after it; parallel construction starts every track at tick 0
//! and interleaves events in ascending absolute-tick order, ties broken
//! by lower track index first.

use vstd::multiset::Multiset;
use vstd::prelude::*;

use crate::device::MidiError;
use crate::events::{EventKind, Format, MetaMessage, TrackEvent};

verus! {

/// The mathematical image of one sheet entry.
pub struct STimed {
    pub tick: int,
    pub track: int,
    pub event: TrackEvent,
}

/// One sheet entry: an event, its absolute tick, and its 1-based track.
#[derive(Clone, Copy, PartialEq, Eq, Structural, Debug)]
pub struct TimedEvent {
    pub tick: u64,
    pub track: usize,
    pub event: TrackEvent,
}

impl View for TimedEvent {
    type V = STimed;

    open spec fn view(&self) -> STimed {
        STimed { tick: self.tick as int, track: self.track as int, event: self.event }
    }
}

/// The image of a run of sheet entries.
pub open spec fn sview(s: Seq<TimedEvent>) -> Seq<STimed> {
    s.map_values(|te: TimedEvent| te@)
}

/// Appending an entry appends its image.
proof fn lemma_sview_push(s: Seq<TimedEvent>, te: TimedEvent)
    ensures
        sview(s.push(te)) == sview(s).push(te@),
{
    assert(sview(s.push(te)) =~= sview(s).push(te@));
}

/// The merged, time-ordered event stream used for playback; a derived,
/// disposable view over the tracks.
#[derive(Debug)]
pub struct Sheet {
    pub events: Vec<TimedEvent>,
}

impl View for Sheet {
    type V = Seq<STimed>;

    open spec fn view(&self) -> Seq<STimed> {
        sview(self.events@)
    }
}

/// The views of a list of decoded tracks.
pub open spec fn tviews(tracks: Seq<Vec<TrackEvent>>) -> Seq<Seq<TrackEvent>> {
    tracks.map_values(|t: Vec<TrackEvent>| t@)
}

/// The sum of the first `j` delta times of a track: the absolute tick of
/// event `j - 1`, counted from the track's own start.
pub open spec fn sum_deltas(track: Seq<TrackEvent>, j: int) -> int
    decreases j,
{
    if j <= 0 {
        0
    } else {
        sum_deltas(track, j - 1) + track[j - 1].delta
    }
}

/// The tick span of a whole track: the sum of all its delta times.
pub open spec fn track_ticks(track: Seq<TrackEvent>) -> int {
    sum_deltas(track, track.len() as int)
}

/// Delta times are non-negative, so partial sums grow with their length.
pub proof fn lemma_sum_deltas_mono(track: Seq<TrackEvent>, i: int, j: int)
    requires
        0 <= i <= j,
    ensures
        sum_deltas(track, i) <= sum_deltas(track, j),
    decreases j,
{
    if i < j {
        lemma_sum_deltas_mono(track, i, j - 1);
    }
}

/// A track's events at their absolute ticks, shifted by `offset` and
/// tagged with the track's number.
pub open spec fn tagged_abs(track: Seq<TrackEvent>, track_no: int, offset: int) -> Seq<STimed> {
    Seq::new(
        track.len(),
        |i: int|
            STimed {
                tick: offset + sum_deltas(track, i + 1),
                track: track_no,
                event: track[i],
            },
    )
}

/// The order of the parallel merge: ascending tick, ties broken by the
/// lower track index.
pub open spec fn timed_le(a: STimed, b: STimed) -> bool {
    a.tick < b.tick || (a.tick == b.tick && a.track <= b.track)
}

/// Stable two-way merge in `timed_le` order; on a tie the left run wins.
pub open spec fn merge2(a: Seq<STimed>, b: Seq<STimed>) -> Seq<STimed>
    decreases a.len() + b.len(),
{
    if a.len() == 0 {
        b
    } else if b.len() == 0 {
        a
    } else if timed_le(a[0], b[0]) {
        seq![a[0]] + merge2(a.drop_first(), b)
    } else {
        seq![b[0]] + merge2(a, b.drop_first())
    }
}

/// The parallel sheet of the first `k` tracks: each merged in at offset 0,
/// earlier tracks on the left so that they win ties.
pub open spec fn parallel_upto(tracks: Seq<Seq<TrackEvent>>, k: int) -> Seq<STimed>
    decreases k,
{
    if k <= 0 {
        Seq::empty()
    } else {
        merge2(parallel_upto(tracks, k - 1), tagged_abs(tracks[k - 1], k, 0))
    }
}

/// The parallel sheet: every track's clock starts at 0; events interleave
/// in ascending absolute-tick order, ties broken by lower track index.
pub open spec fn spec_parallel(tracks: Seq<Seq<TrackEvent>>) -> Seq<STimed> {
    parallel_upto(tracks, tracks.len() as int)
}

/// Merging keeps every entry: the result holds the two runs' entries and
/// nothing else, each as often as before.
pub proof fn lemma_merge2_content(a: Seq<STimed>, b: Seq<STimed>)
    ensures
        merge2(a, b).len() == a.len() + b.len(),
        merge2(a, b).to_multiset() == a.to_multiset().add(b.to_multiset()),
    decreases a.len() + b.len(),
{
    broadcast use vstd::seq_lib::group_to_multiset_ensures;

    if a.len() == 0 {
        assert(a.to_multiset() =~= Multiset::<STimed>::empty());
        assert(merge2(a, b).to_multiset() =~= a.to_multiset().add(b.to_multiset()));
    } else if b.len() == 0 {
        assert(b.to_multiset() =~= Multiset::<STimed>::empty());
        assert(merge2(a, b).to_multiset() =~= a.to_multiset().add(b.to_multiset()));
    } else if timed_le(a[0], b[0]) {
        let rest = a.drop_first();
        lemma_merge2_content(rest, b);
        vstd::seq_lib::lemma_multiset_commutative(seq![a[0]], merge2(rest, b));
        assert(seq![a[0]] =~= Seq::<STimed>::empty().push(a[0]));
        assert(seq![a[0]].to_multiset() =~= Multiset::<STimed>::empty().insert(a[0]));
        assert(a.remove(0) =~= rest);
        assert(rest.to_multiset() == a.to_multiset().remove(a[0]));
        assert(a.to_multiset().count(a[0]) > 0);
        assert(merge2(a, b).to_multiset() =~= a.to_multiset().add(b.to_multiset()));
    } else {
        let rest = b.drop_first();
        lemma_merge2_content(a, rest);
        vstd::seq_lib::lemma_multiset_commutative(seq![b[0]], merge2(a, rest));
        assert(seq![b[0]] =~= Seq::<STimed>::empty().push(b[0]));
        assert(seq![b[0]].to_multiset() =~= Multiset::<STimed>::empty().insert(b[0]));
        assert(b.remove(0) =~= rest);
        assert(rest.to_multiset() == b.to_multiset().remove(b[0]));
        assert(b.to_multiset().count(b[0]) > 0);
        assert(merge2(a, b).to_multiset() =~= a.to_multiset().add(b.to_multiset()));
    }
}

/// The entries of the first `k` tracks, each track at offset 0, as one bag.
pub open spec fn tracks_multiset(tracks: Seq<Seq<TrackEvent>>, k: int) -> Multiset<STimed>
    decreases k,
{
    if k <= 0 {
        Multiset::empty()
    } else {
        tracks_multiset(tracks, k - 1).add(tagged_abs(tracks[k - 1], k, 0).to_multiset())
    }
}

/// The parallel sheet holds exactly the tracks' events: merging loses
/// none and invents none.
pub proof fn lemma_parallel_content(tracks: Seq<Seq<TrackEvent>>)
    ensures
        spec_parallel(tracks).to_multiset() == tracks_multiset(tracks, tracks.len() as int),
{
    lemma_parallel_upto_content(tracks, tracks.len() as int);
}

/// Content preservation for every prefix merge.
proof fn lemma_parallel_upto_content(tracks: Seq<Seq<TrackEvent>>, k: int)
    ensures
        parallel_upto(tracks, k).to_multiset() == tracks_multiset(tracks, k),
    decreases k,
{
    broadcast use vstd::seq_lib::group_to_multiset_ensures;

    if k <= 0 {
        assert(parallel_upto(tracks, k).to_multiset() =~= tracks_multiset(tracks, k));
    } else {
        lemma_parallel_upto_content(tracks, k - 1);
        lemma_merge2_content(parallel_upto(tracks, k - 1), tagged_abs(tracks[k - 1], k, 0));
    }
}

/// Whether a run of entries is time-ordered: ascending ticks, ties in
/// ascending track order.
pub open spec fn sorted_sheet(s: Seq<STimed>) -> bool {
    forall|i: int, j: int| 0 <= i < j < s.len() ==> timed_le(#[trigger] s[i], #[trigger] s[j])
}

/// An entry below both merge inputs is below everything they merge to.
proof fn lemma_merge2_lower_bound(lo: STimed, a: Seq<STimed>, b: Seq<STimed>)
    requires
        forall|i: int| 0 <= i < a.len() ==> timed_le(lo, #[trigger] a[i]),
        forall|j: int| 0 <= j < b.len() ==> timed_le(lo, #[trigger] b[j]),
    ensures
        forall|k: int| 0 <= k < merge2(a, b).len() ==> timed_le(lo, #[trigger] merge2(a, b)[k]),
    decreases a.len() + b.len(),
{
    if a.len() == 0 || b.len() == 0 {
    } else if timed_le(a[0], b[0]) {
        let rest = a.drop_first();
        assert(forall|i: int| 0 <= i < rest.len() ==> timed_le(lo, #[trigger] rest[i]));
        lemma_merge2_lower_bound(lo, rest, b);
        assert(forall|k: int|
            0 <= k < merge2(a, b).len() ==> timed_le(lo, #[trigger] merge2(a, b)[k])) by {
            assert(merge2(a, b) == seq![a[0]] + merge2(rest, b));
        }
    } else {
        let rest = b.drop_first();
        assert(forall|j: int| 0 <= j < rest.len() ==> timed_le(lo, #[trigger] rest[j]));
        lemma_merge2_lower_bound(lo, a, rest);
        assert(forall|k: int|
            0 <= k < merge2(a, b).len() ==> timed_le(lo, #[trigger] merge2(a, b)[k])) by {
            assert(merge2(a, b) == seq![b[0]] + merge2(a, rest));
        }
    }
}

/// Merging two time-ordered runs gives a time-ordered run.
pub proof fn lemma_merge2_sorted(a: Seq<STimed>, b: Seq<STimed>)
    requires
        sorted_sheet(a),
        sorted_sheet(b),
    ensures
        sorted_sheet(merge2(a, b)),
    decreases a.len() + b.len(),
{
    if a.len() == 0 || b.len() == 0 {
    } else if timed_le(a[0], b[0]) {
        let rest = a.drop_first();
        assert(sorted_sheet(rest)) by {
            assert(forall|i: int, j: int|
                0 <= i < j < rest.len() ==> timed_le(#[trigger] rest[i], #[trigger] rest[j]));
        }
        lemma_merge2_sorted(rest, b);
        assert(forall|i: int| 0 <= i < rest.len() ==> timed_le(a[0], #[trigger] rest[i]));
        assert(forall|j: int| 0 <= j < b.len() ==> timed_le(a[0], #[trigger] b[j]));
        lemma_merge2_lower_bound(a[0], rest, b);
        assert(merge2(a, b) == seq![a[0]] + merge2(rest, b));
    } else {
        let rest = b.drop_first();
        assert(sorted_sheet(rest)) by {
            assert(forall|i: int, j: int|
                0 <= i < j < rest.len() ==> timed_le(#[trigger] rest[i], #[trigger] rest[j]));
        }
        lemma_merge2_sorted(a, rest);
        assert(timed_le(b[0], a[0]));
        assert(forall|i: int| 0 <= i < a.len() ==> timed_le(b[0], #[trigger] a[i]));
        assert(forall|j: int| 0 <= j < rest.len() ==> timed_le(b[0], #[trigger] rest[j]));
        lemma_merge2_lower_bound(b[0], a, rest);
        assert(merge2(a, b) == seq![b[0]] + merge2(a, rest));
    }
}

/// One track's run of absolute-tick entries is time-ordered.
proof fn lemma_tagged_abs_sorted(track: Seq<TrackEvent>, track_no: int, offset: int)
    ensures
        sorted_sheet(tagged_abs(track, track_no, offset)),
{
    let s = tagged_abs(track, track_no, offset);
    assert forall|i: int, j: int| 0 <= i < j < s.len() implies timed_le(
        #[trigger] s[i],
        #[trigger] s[j],
    ) by {
        lemma_sum_deltas_mono(track, i + 1, j + 1);
    }
}

/// The parallel sheet is time-ordered: events come in ascending
/// absolute-tick order, ties in ascending track order.
pub proof fn lemma_parallel_sorted(tracks: Seq<Seq<TrackEvent>>)
    ensures
        sorted_sheet(spec_parallel(tracks)),
{
    lemma_parallel_upto_sorted(tracks, tracks.len() as int);
}

/// Every prefix merge of the parallel sheet is time-ordered.
proof fn lemma_parallel_upto_sorted(tracks: Seq<Seq<TrackEvent>>, k: int)
    ensures
        sorted_sheet(parallel_upto(tracks, k)),
    decreases k,
{
    if k <= 0 {
    } else {
        lemma_parallel_upto_sorted(tracks, k - 1);
        lemma_tagged_abs_sorted(tracks[k - 1], k, 0);
        lemma_merge2_sorted(parallel_upto(tracks, k - 1), tagged_abs(tracks[k - 1], k, 0));
    }
}

/// Whether an event is the end-of-track meta event.
pub open spec fn is_eot(e: TrackEvent) -> bool {
    e.kind matches EventKind::Meta(MetaMessage::EndOfTrack)
}

/// Whether a track declares its end at all.
pub open spec fn has_eot(track: Seq<TrackEvent>) -> bool {
    exists|i: int| 0 <= i < track.len() && is_eot(track[i])
}

/// The position of the first end-of-track event.
pub open spec fn eot_index(track: Seq<TrackEvent>) -> int
    decreases track.len(),
{
    if track.len() == 0 {
        0
    } else if is_eot(track[0]) {
        0
    } else {
        1 + eot_index(track.drop_first())
    }
}

/// A track's declared end: the absolute tick of its first end-of-track event.
pub open spec fn end_tick(track: Seq<TrackEvent>) -> int {
    sum_deltas(track, eot_index(track) + 1)
}

/// `eot_index` is exactly the first position holding an end-of-track event.
pub proof fn lemma_eot_first(track: Seq<TrackEvent>, i: int)
    requires
        0 <= i < track.len(),
        is_eot(track[i]),
        forall|j: int| 0 <= j < i ==> !is_eot(#[trigger] track[j]),
    ensures
        eot_index(track) == i,
    decreases i,
{
    if i == 0 {
    } else {
        assert(!is_eot(track[0]));
        let rest = track.drop_first();
        assert(rest[i - 1] == track[i]);
        assert(forall|j: int| 0 <= j < i - 1 ==> !is_eot(#[trigger] rest[j]));
        lemma_eot_first(rest, i - 1);
    }
}

/// The tick span of the first `k` tracks together.
pub open spec fn ticks_upto(tracks: Seq<Seq<TrackEvent>>, k: int) -> int
    decreases k,
{
    if k <= 0 {
        0
    } else {
        ticks_upto(tracks, k - 1) + track_ticks(tracks[k - 1])
    }
}

/// The tick span of all tracks together; sheet construction asks that it
/// fit the tick counter.
pub open spec fn all_ticks(tracks: Seq<Seq<TrackEvent>>) -> int {
    ticks_upto(tracks, tracks.len() as int)
}

/// Track spans are non-negative, so prefixes of the total grow with `k`.
pub proof fn lemma_ticks_upto_mono(tracks: Seq<Seq<TrackEvent>>, i: int, j: int)
    requires
        0 <= i <= j,
    ensures
        ticks_upto(tracks, i) <= ticks_upto(tracks, j),
    decreases j,
{
    if i < j {
        lemma_ticks_upto_mono(tracks, i, j - 1);
        lemma_sum_deltas_mono(tracks[j - 1], 0, tracks[j - 1].len() as int);
    }
}

/// One track's span is at most the span of all tracks.
pub proof fn lemma_track_ticks_le_all(tracks: Seq<Seq<TrackEvent>>, k: int)
    requires
        0 <= k < tracks.len(),
    ensures
        0 <= track_ticks(tracks[k]) <= all_ticks(tracks),
{
    lemma_sum_deltas_mono(tracks[k], 0, tracks[k].len() as int);
    lemma_ticks_upto_mono(tracks, 0, k);
    lemma_ticks_upto_mono(tracks, k + 1, tracks.len() as int);
}

/// Append a track's events at their absolute ticks, shifted by `offset`.
fn abs_track(track: &Vec<TrackEvent>, track_no: usize, offset: u64, out: &mut Vec<TimedEvent>)
    requires
        offset + track_ticks(track@) <= u64::MAX,
    ensures
        sview(final(out)@) == sview(old(out)@) + tagged_abs(
            track@,
            track_no as int,
            offset as int,
        ),
{
    let ghost out0 = sview(out@);
    let ghost whole = tagged_abs(track@, track_no as int, offset as int);
    let mut acc: u64 = offset;
    let n = track.len();
    let mut i: usize = 0;
    while i < n
        invariant
            i <= n,
            n == track@.len(),
            offset + track_ticks(track@) <= u64::MAX,
            whole == tagged_abs(track@, track_no as int, offset as int),
            acc == offset + sum_deltas(track@, i as int),
            sview(out@) == out0 + whole.take(i as int),
        decreases n - i,
    {
        proof {
            lemma_sum_deltas_mono(track@, i as int + 1, n as int);
            lemma_sum_deltas_mono(track@, 0, i as int);
        }
        let ev = track[i];
        acc = acc + (ev.delta as u64);
        let te = TimedEvent { tick: acc, track: track_no, event: ev };
        let ghost pre = out@;
        out.push(te);
        proof {
            assert(sum_deltas(track@, i as int + 1) == sum_deltas(track@, i as int)
                + track@[i as int].delta);
            assert(whole[i as int] == te@);
            lemma_sview_push(pre, te);
            assert(out0 + whole.take(i as int + 1) =~= (out0 + whole.take(i as int)).push(
                whole[i as int],
            ));
        }
        i = i + 1;
    }
    proof {
        assert(whole.take(n as int) =~= whole);
    }
}

/// Merge two runs of sheet entries; on a tie the left run's entry goes first.
fn merge_two(a: Vec<TimedEvent>, b: Vec<TimedEvent>) -> (r: Vec<TimedEvent>)
    ensures
        sview(r@) == merge2(sview(a@), sview(b@)),
{
    let ghost av = sview(a@);
    let ghost bv = sview(b@);
    let mut out: Vec<TimedEvent> = Vec::new();
    let mut i: usize = 0;
    let mut j: usize = 0;
    proof {
        assert(av.skip(0) =~= av);
        assert(bv.skip(0) =~= bv);
        assert(sview(out@) =~= Seq::<STimed>::empty());
        assert(merge2(av, bv) =~= sview(out@) + merge2(av.skip(0), bv.skip(0)));
    }
    while i < a.len() || j < b.len()
        invariant
            i <= a@.len(),
            j <= b@.len(),
            av == sview(a@),
            bv == sview(b@),
            merge2(av, bv) == sview(out@) + merge2(av.skip(i as int), bv.skip(j as int)),
        decreases a@.len() - i + b@.len() - j,
    {
        let ghost asuf = av.skip(i as int);
        let ghost bsuf = bv.skip(j as int);
        let take_a = if i < a.len() && j < b.len() {
            a[i].tick < b[j].tick || (a[i].tick == b[j].tick && a[i].track <= b[j].track)
        } else {
            i < a.len()
        };
        if take_a {
            proof {
                assert(asuf[0] == av[i as int]);
                if j < b@.len() {
                    assert(bsuf[0] == bv[j as int]);
                    assert(timed_le(asuf[0], bsuf[0]));
                    assert(merge2(asuf, bsuf) == seq![asuf[0]] + merge2(asuf.drop_first(), bsuf));
                } else {
                    assert(bsuf =~= Seq::<STimed>::empty());
                    assert(merge2(asuf, bsuf) == asuf);
                    assert(asuf =~= seq![asuf[0]] + asuf.drop_first());
                }
                assert(asuf.drop_first() =~= av.skip(i as int + 1));
            }
            let e = a[i];
            let ghost preo = out@;
            out.push(e);
            proof {
                assert(e@ == asuf[0]);
                lemma_sview_push(preo, e);
                assert(sview(preo).push(asuf[0]) + merge2(av.skip(i as int + 1), bsuf)
                    =~= sview(preo) + (seq![asuf[0]] + merge2(av.skip(i as int + 1), bsuf)));
            }
            i = i + 1;
        } else {
            proof {
                assert(j < b@.len());
                assert(bsuf[0] == bv[j as int]);
                if i < a@.len() {
                    assert(asuf[0] == av[i as int]);
                    assert(!timed_le(asuf[0], bsuf[0]));
                    assert(merge2(asuf, bsuf) == seq![bsuf[0]] + merge2(asuf, bsuf.drop_first()));
                } else {
                    assert(asuf =~= Seq::<STimed>::empty());
                    assert(merge2(asuf, bsuf) == bsuf);
                    assert(bsuf =~= seq![bsuf[0]] + bsuf.drop_first());
                }
                assert(bsuf.drop_first() =~= bv.skip(j as int + 1));
            }
            let e = b[j];
            let ghost preo = out@;
            out.push(e);
            proof {
                assert(e@ == bsuf[0]);
                lemma_sview_push(preo, e);
                assert(sview(preo).push(bsuf[0]) + merge2(asuf, bv.skip(j as int + 1))
                    =~= sview(preo) + (seq![bsuf[0]] + merge2(asuf, bv.skip(j as int + 1))));
            }
            j = j + 1;
        }
    }
    proof {
        assert(av.skip(i as int) =~= Seq::<STimed>::empty());
        assert(bv.skip(j as int) =~= Seq::<STimed>::empty());
        assert(merge2(av, bv) =~= sview(out@));
    }
    out
}

/// Build the parallel sheet: every track's clock starts at 0; events
/// interleave in ascending absolute-tick order, ties broken by lower
/// track index first.
pub fn parallel(tracks: &Vec<Vec<TrackEvent>>) -> (r: Sheet)
    requires
        forall|k: int| 0 <= k < tracks@.len() ==> track_ticks(#[trigger] tracks@[k]@) <= u64::MAX,
    ensures
        r@ == spec_parallel(tviews(tracks@)),
        sorted_sheet(r@),
{
    let ghost tv = tviews(tracks@);
    let n = tracks.len();
    let mut merged: Vec<TimedEvent> = Vec::new();
    let mut k: usize = 0;
    while k < n
        invariant
            k <= n,
            n == tracks@.len(),
            tv == tviews(tracks@),
            forall|m: int| 0 <= m < tracks@.len() ==> track_ticks(#[trigger] tracks@[m]@) <= u64::MAX,
            sview(merged@) == parallel_upto(tv, k as int),
        decreases n - k,
    {
        let mut cur: Vec<TimedEvent> = Vec::new();
        abs_track(&tracks[k], k + 1, 0, &mut cur);
        merged = merge_two(merged, cur);
        proof {
            assert(tv[k as int] == tracks@[k as int]@);
        }
        k = k + 1;
    }
    proof {
        lemma_parallel_sorted(tv);
    }
    Sheet { events: merged }
}

/// Walk a track once, returning its declared end: the absolute tick of
/// its first end-of-track event, or nothing when it never declares one.
fn find_end(track: &Vec<TrackEvent>) -> (r: Option<u64>)
    requires
        track_ticks(track@) <= u64::MAX,
    ensures
        r is Some <==> has_eot(track@),
        r matches Some(t) ==> t == end_tick(track@),
{
    let mut acc: u64 = 0;
    let n = track.len();
    let mut i: usize = 0;
    while i < n
        invariant
            i <= n,
            n == track@.len(),
            track_ticks(track@) <= u64::MAX,
            acc == sum_deltas(track@, i as int),
            forall|j: int| 0 <= j < i ==> !is_eot(#[trigger] track@[j]),
        decreases n - i,
    {
        proof {
            lemma_sum_deltas_mono(track@, i as int + 1, n as int);
            lemma_sum_deltas_mono(track@, 0, i as int);
        }
        let ev = track[i];
        acc = acc + (ev.delta as u64);
        let found = match ev.kind {
            EventKind::Meta(MetaMessage::EndOfTrack) => true,
            _ => false,
        };
        if found {
            proof {
                lemma_eot_first(track@, i as int);
            }
            return Some(acc);
        }
        i = i + 1;
    }
    proof {
        assert(!has_eot(track@));
    }
    None
}

/// Build the sequential sheet: tracks concatenated end to end, each
/// following track starting one tick past the previous track's declared
/// end, so that all of it falls strictly after that end. Fails, naming
/// the first offending track, when a track never declares its end; the
/// rule is uniform, the last track included, rather than guessing which
/// track a boundary will depend on.
pub fn sequential(tracks: &Vec<Vec<TrackEvent>>) -> (r: Result<Sheet, MidiError>)
    requires
        all_ticks(tviews(tracks@)) + tracks@.len() <= u64::MAX,
    ensures
        (r is Ok) <==> (forall|k: int| 0 <= k < tracks@.len() ==> has_eot(#[trigger] tracks@[k]@)),
        r matches Ok(s) ==> s@ == spec_sequential(tviews(tracks@)),
        r matches Err(e) ==> (e matches MidiError::MissingEndOfTrack { track } && 1 <= track
            <= tracks@.len() && !has_eot(tracks@[track - 1]@) && forall|j: int|
            0 <= j < track - 1 ==> has_eot(#[trigger] tracks@[j]@)),
{
    let ghost tv = tviews(tracks@);
    let n = tracks.len();
    let mut out: Vec<TimedEvent> = Vec::new();
    let mut off: u64 = 0;
    let mut k: usize = 0;
    while k < n
        invariant
            k <= n,
            n == tracks@.len(),
            tv == tviews(tracks@),
            all_ticks(tv) + n <= u64::MAX,
            off <= ticks_upto(tv, k as int) + k,
            forall|j: int| 0 <= j < k ==> has_eot(#[trigger] tracks@[j]@),
            spec_sequential(tv) == sview(out@) + seq_from(tv, k as int, off as int),
        decreases n - k,
    {
        proof {
            assert(tv[k as int] == tracks@[k as int]@);
            lemma_track_ticks_le_all(tv, k as int);
            lemma_ticks_upto_mono(tv, k as int + 1, n as int);
        }
        let end = match find_end(&tracks[k]) {
            Some(t) => t,
            None => {
                return Err(MidiError::MissingEndOfTrack { track: k + 1 });
            },
        };
        proof {
            lemma_eot_bound(tv[k as int]);
            lemma_sum_deltas_mono(tv[k as int], 0, eot_index(tv[k as int]) + 1);
            lemma_sum_deltas_mono(
                tv[k as int],
                eot_index(tv[k as int]) + 1,
                tv[k as int].len() as int,
            );
        }
        let ghost out_before = sview(out@);
        abs_track(&tracks[k], k + 1, off, &mut out);
        proof {
            assert(seq_from(tv, k as int, off as int) == tagged_abs(
                tv[k as int],
                k as int + 1,
                off as int,
            ) + seq_from(tv, k as int + 1, off as int + end_tick(tv[k as int]) + 1));
            assert(sview(out@) + seq_from(
                tv,
                k as int + 1,
                off as int + end_tick(tv[k as int]) + 1,
            ) =~= out_before + seq_from(tv, k as int, off as int));
        }
        off = off + end + 1;
        k = k + 1;
    }
    proof {
        assert(seq_from(tv, n as int, off as int) =~= Seq::<STimed>::empty());
        assert(sview(out@) =~= spec_sequential(tv));
    }
    Ok(Sheet { events: out })
}

/// The sequential sheet of the tracks from `k` on, the first starting at
/// `offset` and each later one one tick past the previous track's declared
/// end, so that it falls strictly after that end.
pub open spec fn seq_from(tracks: Seq<Seq<TrackEvent>>, k: int, offset: int) -> Seq<STimed>
    decreases tracks.len() - k,
{
    if k < 0 || k >= tracks.len() {
        Seq::empty()
    } else {
        tagged_abs(tracks[k], k + 1, offset) + seq_from(
            tracks,
            k + 1,
            offset + end_tick(tracks[k]) + 1,
        )
    }
}

/// The sequential sheet of all tracks, starting at tick 0.
pub open spec fn spec_sequential(tracks: Seq<Seq<TrackEvent>>) -> Seq<STimed> {
    seq_from(tracks, 0, 0)
}

/// A track that declares its end holds that declaration at a real position.
pub proof fn lemma_eot_bound(track: Seq<TrackEvent>)
    requires
        has_eot(track),
    ensures
        0 <= eot_index(track) < track.len(),
        is_eot(track[eot_index(track)]),
    decreases track.len(),
{
    if is_eot(track[0]) {
    } else {
        let rest = track.drop_first();
        assert(has_eot(rest)) by {
            let i = choose|i: int| 0 <= i < track.len() && is_eot(track[i]);
            assert(rest[i - 1] == track[i]);
        }
        lemma_eot_bound(rest);
        assert(track[eot_index(track)] == rest[eot_index(rest)]);
    }
}

/// Build the sheet the sequencing mode calls for: single-track and
/// sequential files are concatenated end to end, parallel files are
/// merged by absolute tick.
pub fn build_sheet(format: Format, tracks: &Vec<Vec<TrackEvent>>) -> (r: Result<Sheet, MidiError>)
    requires
        all_ticks(tviews(tracks@)) + tracks@.len() <= u64::MAX,
    ensures
        format is Parallel ==> (r matches Ok(s) && s@ == spec_parallel(tviews(tracks@))
            && sorted_sheet(s@)),
        format !is Parallel ==> {
            &&& (r is Ok) <==> (forall|k: int|
                0 <= k < tracks@.len() ==> has_eot(#[trigger] tracks@[k]@))
            &&& (r matches Ok(s) ==> s@ == spec_sequential(tviews(tracks@)))
            &&& (r matches Err(e) ==> (e matches MidiError::MissingEndOfTrack { track } && 1
                <= track <= tracks@.len() && !has_eot(tracks@[track - 1]@) && forall|j: int|
                0 <= j < track - 1 ==> has_eot(#[trigger] tracks@[j]@)))
        },
{
    match format {
        Format::Parallel => {
            proof {
                assert forall|k: int| 0 <= k < tracks@.len() implies track_ticks(
                    #[trigger] tracks@[k]@,
                ) <= u64::MAX by {
                    lemma_track_ticks_le_all(tviews(tracks@), k);
                    assert(tviews(tracks@)[k] == tracks@[k]@);
                }
            }
            Ok(parallel(tracks))
        },
        _ => sequential(tracks),
    }
}

} // verus!
