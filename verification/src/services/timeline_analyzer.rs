//! Frame timings derived from raw `Timeline` events (Chrome Trace Event format) and their
//! aggregate performance report.

use vstd::prelude::*;
use crate::entities::{FrameTiming, PerformanceReport};
use crate::json::{JsonValue, spec_get_i64, spec_get_str};
use crate::text::{chars_eq_str, to_chars};

verus! {

broadcast use vstd::string::group_string_axioms;

/// Default frame budget for 60Hz (about 16.6ms); crossing it counts as jank.
pub const DEFAULT_FRAME_BUDGET_US: u64 = 16_600;

/// Trace event name standing for the build phase of a frame (UI thread).
pub const BUILD_EVENT: &'static str = "Animator::BeginFrame";

/// Trace event name standing for the raster phase of a frame (GPU thread).
pub const RASTER_EVENT: &'static str = "Rasterizer::DrawToSurfaces";

/// Durations paired so far and the start of an open `B` event, after `events`.
pub open spec fn spec_pairing(events: Seq<JsonValue>, name: Seq<char>) -> (Seq<u64>, Option<i64>)
    decreases events.len(),
{
    if events.len() == 0 {
        (Seq::empty(), None)
    } else {
        let (durations, pending) = spec_pairing(events.drop_last(), name);
        let e = events.last();
        if spec_get_str(e, "name"@) != Some(name) {
            (durations, pending)
        } else {
            let ts: i64 = match spec_get_i64(e, "ts"@) {
                Some(t) => t,
                None => 0,
            };
            let ph = spec_get_str(e, "ph"@);
            if ph == Some("B"@) {
                (durations, Some(ts))
            } else if ph == Some("E"@) {
                match pending {
                    Some(start) => (durations.push(clamp_duration(ts - start)), None),
                    None => (durations, None),
                }
            } else if ph == Some("X"@) {
                match spec_get_i64(e, "dur"@) {
                    Some(d) => (durations.push(clamp_duration(d as int)), pending),
                    None => (durations, pending),
                }
            } else {
                (durations, pending)
            }
        }
    }
}

/// A signed duration in microseconds, negative ones counting as zero.
pub open spec fn clamp_duration(d: int) -> u64 {
    if d < 0 {
        0
    } else {
        d as u64
    }
}

/// Durations of the `name` events: each `B`/`E` pair and each complete `X` event.
pub open spec fn spec_paired_durations(events: Seq<JsonValue>, name: Seq<char>) -> Seq<u64> {
    spec_pairing(events, name).0
}

/// The frame timings derived from `events`: the i-th build duration with the i-th
/// raster duration (zero when missing).
pub open spec fn spec_frame_timing(build: Seq<u64>, raster: Seq<u64>, i: int, budget: u64) -> FrameTiming {
    let r: u64 = if i < raster.len() { raster[i] } else { 0 };
    FrameTiming {
        frame_number: i as u64,
        build_duration_us: build[i],
        raster_duration_us: r,
        is_janky: build[i] + r > budget,
    }
}

pub open spec fn spec_frame_timings(events: Seq<JsonValue>, budget: u64) -> Seq<FrameTiming> {
    let build = spec_paired_durations(events, BUILD_EVENT@);
    let raster = spec_paired_durations(events, RASTER_EVENT@);
    Seq::new(build.len(), |i: int| spec_frame_timing(build, raster, i, budget))
}

pub open spec fn sum(s: Seq<u64>) -> int
    decreases s.len(),
{
    if s.len() == 0 {
        0
    } else {
        sum(s.drop_last()) + s.last()
    }
}

/// The integer mean of `s`, zero for an empty sequence.
pub open spec fn spec_average(s: Seq<u64>) -> int {
    if s.len() == 0 {
        0
    } else {
        sum(s) / (s.len() as int)
    }
}

pub open spec fn frame_total(f: FrameTiming) -> int {
    f.build_duration_us + f.raster_duration_us
}

/// `k` is the last frame with the largest build + raster time.
pub open spec fn is_worst_index(frames: Seq<FrameTiming>, k: int) -> bool {
    &&& 0 <= k < frames.len()
    &&& forall|j: int| 0 <= j < frames.len() ==> frame_total(#[trigger] frames[j]) <= frame_total(frames[k])
    &&& forall|j: int| k < j < frames.len() ==> frame_total(#[trigger] frames[j]) < frame_total(frames[k])
}

pub open spec fn count_janky(frames: Seq<FrameTiming>) -> int
    decreases frames.len(),
{
    if frames.len() == 0 {
        0
    } else {
        count_janky(frames.drop_last()) + if frames.last().is_janky { 1int } else { 0int }
    }
}

pub open spec fn build_times(frames: Seq<FrameTiming>) -> Seq<u64> {
    frames.map_values(|f: FrameTiming| f.build_duration_us)
}

pub open spec fn raster_times(frames: Seq<FrameTiming>) -> Seq<u64> {
    frames.map_values(|f: FrameTiming| f.raster_duration_us)
}

/// `r` is the report of `frames`: count, jank count, averages, worst frame, frames.
pub open spec fn is_summary_of(r: PerformanceReport, frames: Seq<FrameTiming>) -> bool {
    &&& r.frame_count == frames.len() as u32
    &&& r.janky_count == count_janky(frames) as u32
    &&& r.avg_build_us == spec_average(build_times(frames))
    &&& r.avg_raster_us == spec_average(raster_times(frames))
    &&& r.worst_frame is None <==> frames.len() == 0
    &&& r.worst_frame matches Some(w) ==> exists|k: int| is_worst_index(frames, k) && w == frames[k]
    &&& r.frames@ == frames
}

/// Derives frame timings from raw timeline events.
pub struct TimelineAnalyzer;

impl TimelineAnalyzer {
    /// Pairs `Animator::BeginFrame` (build) and `Rasterizer::DrawToSurfaces` (raster)
    /// events, frame by frame, and marks frames over `frame_budget_us` as janky.
    pub fn compute_frame_timings(events: &Vec<JsonValue>, frame_budget_us: u64) -> (r: Vec<FrameTiming>)
        ensures
            r@ == spec_frame_timings(events@, frame_budget_us),
    {
        let build_us = Self::paired_durations(events, BUILD_EVENT);
        let raster_us = Self::paired_durations(events, RASTER_EVENT);
        let ghost spec_r = spec_frame_timings(events@, frame_budget_us);
        let mut frames: Vec<FrameTiming> = Vec::new();
        let mut i: usize = 0;
        while i < build_us.len()
            invariant
                i <= build_us.len(),
                build_us@ == spec_paired_durations(events@, BUILD_EVENT@),
                raster_us@ == spec_paired_durations(events@, RASTER_EVENT@),
                spec_r == spec_frame_timings(events@, frame_budget_us),
                frames@ == spec_r.take(i as int),
            decreases build_us.len() - i,
        {
            let b = build_us[i];
            let r: u64 = if i < raster_us.len() { raster_us[i] } else { 0 };
            let janky = if b > u64::MAX - r { true } else { b + r > frame_budget_us };
            frames.push(FrameTiming {
                frame_number: i as u64,
                build_duration_us: b,
                raster_duration_us: r,
                is_janky: janky,
            });
            assert(spec_r.take(i + 1) == spec_r.take(i as int).push(spec_r[i as int]));
            i = i + 1;
        }
        assert(spec_r.take(build_us.len() as int) == spec_r);
        frames
    }

    fn paired_durations(events: &Vec<JsonValue>, name: &str) -> (r: Vec<u64>)
        ensures
            r@ == spec_paired_durations(events@, name@),
    {
        let name_chars = to_chars(name);
        let mut durations: Vec<u64> = Vec::new();
        let mut pending_start: Option<i64> = None;
        let mut i: usize = 0;
        while i < events.len()
            invariant
                i <= events.len(),
                name_chars@ == name@,
                (durations@, pending_start) == spec_pairing(events@.take(i as int), name@),
            decreases events.len() - i,
        {
            proof {
                let t = events@.take(i + 1);
                assert(t.drop_last() == events@.take(i as int));
                assert(t.last() == events@[i as int]);
            }
            let event = &events[i];
            let matches_name = match event.get_str("name") {
                Some(n) => {
                    let nc = to_chars(n);
                    chars_eq_str(&nc, name)
                },
                None => false,
            };
            if matches_name {
                let ts: i64 = match event.get_i64("ts") {
                    Some(t) => t,
                    None => 0,
                };
                match event.get_str("ph") {
                    Some(ph) => {
                        if crate::text::str_eq(ph, "B") {
                            pending_start = Some(ts);
                        } else if crate::text::str_eq(ph, "E") {
                            match pending_start {
                                Some(start) => {
                                    let diff: i128 = ts as i128 - start as i128;
                                    let d: u64 = if diff < 0 { 0 } else { diff as u64 };
                                    durations.push(d);
                                },
                                None => {},
                            }
                            pending_start = None;
                        } else if crate::text::str_eq(ph, "X") {
                            match event.get_i64("dur") {
                                Some(dur) => {
                                    let d: u64 = if dur < 0 { 0 } else { dur as u64 };
                                    durations.push(d);
                                },
                                None => {},
                            }
                        }
                    },
                    None => {},
                }
            }
            i = i + 1;
        }
        assert(events@.take(events.len() as int) == events@);
        durations
    }

    /// Aggregates frame timings: count, jank count, average build and raster times, and
    /// the worst frame (the last one with the largest build + raster time).
    pub fn summarize(frames: &Vec<FrameTiming>) -> (r: PerformanceReport)
        ensures
            is_summary_of(r, frames@),
    {
        let mut janky: u64 = 0;
        let mut builds: Vec<u64> = Vec::new();
        let mut rasters: Vec<u64> = Vec::new();
        let mut worst: Option<usize> = None;
        let mut worst_total: u128 = 0;
        let mut copy: Vec<FrameTiming> = Vec::new();
        let mut i: usize = 0;
        while i < frames.len()
            invariant
                i <= frames.len(),
                janky == count_janky(frames@.take(i as int)),
                janky <= i,
                builds@ == build_times(frames@.take(i as int)),
                rasters@ == raster_times(frames@.take(i as int)),
                copy@ == frames@.take(i as int),
                worst is None <==> i == 0,
                worst matches Some(k) ==> k < i && worst_total == frame_total(frames@[k as int])
                    && is_worst_index(frames@.take(i as int), k as int),
            decreases frames.len() - i,
        {
            let f = frames[i];
            let ghost prev = frames@.take(i as int);
            proof {
                let t = frames@.take(i + 1);
                assert(t.drop_last() == prev);
                assert(t.last() == f);
            }
            if f.is_janky {
                janky = janky + 1;
            }
            builds.push(f.build_duration_us);
            rasters.push(f.raster_duration_us);
            copy.push(f);
            let total: u128 = f.build_duration_us as u128 + f.raster_duration_us as u128;
            match worst {
                None => {
                    worst = Some(i);
                    worst_total = total;
                },
                Some(_) => {
                    if total >= worst_total {
                        worst = Some(i);
                        worst_total = total;
                    }
                },
            }
            proof {
                let t = frames@.take(i + 1);
                assert(build_times(t) == build_times(prev).push(f.build_duration_us));
                assert(raster_times(t) == raster_times(prev).push(f.raster_duration_us));
                assert(copy@ == t);
                let k = worst->0 as int;
                assert forall|j: int| 0 <= j < t.len() implies frame_total(#[trigger] t[j]) <= frame_total(t[k]) by {
                    if j < i {
                        assert(t[j] == prev[j]);
                    }
                }
                assert forall|j: int| k < j < t.len() implies frame_total(#[trigger] t[j]) < frame_total(t[k]) by {
                    if j < i {
                        assert(t[j] == prev[j]);
                    }
                }
            }
            i = i + 1;
        }
        assert(frames@.take(frames.len() as int) == frames@);
        let worst_frame = match worst {
            Some(k) => Some(frames[k]),
            None => None,
        };
        PerformanceReport {
            frame_count: frames.len() as u32,
            janky_count: janky as u32,
            avg_build_us: Self::average(&builds),
            avg_raster_us: Self::average(&rasters),
            worst_frame,
            frames: copy,
        }
    }

    fn average(values: &Vec<u64>) -> (r: u64)
        ensures
            r == spec_average(values@),
    {
        if values.len() == 0 {
            return 0;
        }
        let mut total: u128 = 0;
        let mut i: usize = 0;
        while i < values.len()
            invariant
                i <= values.len(),
                total == sum(values@.take(i as int)),
                total <= i * 0xFFFF_FFFF_FFFF_FFFFu64,
            decreases values.len() - i,
        {
            proof {
                let t = values@.take(i + 1);
                assert(t.drop_last() == values@.take(i as int));
                assert(i * 0xFFFF_FFFF_FFFF_FFFFu64 + 0xFFFF_FFFF_FFFF_FFFFu64 < 0x1_0000_0000_0000_0000_0000_0000_0000_0000int) by (nonlinear_arith)
                    requires
                        i < 0x1_0000_0000_0000_0000int,
                ;
            }
            total = total + values[i] as u128;
            i = i + 1;
        }
        assert(values@.take(values.len() as int) == values@);
        let avg: u128 = total / (values.len() as u128);
        assert(avg <= 0xFFFF_FFFF_FFFF_FFFFu64) by (nonlinear_arith)
            requires
                avg == total / (values.len() as u128),
                total <= values.len() * 0xFFFF_FFFF_FFFF_FFFFu64,
                values.len() >= 1,
        ;
        avg as u64
    }
}

// ---------------------------------------------------------------------------
// Laws
// ---------------------------------------------------------------------------

/// Frames pair durations by rank: there is one frame per build duration, the i-th
/// frame is numbered `i`, carries the i-th build duration and the i-th raster duration
/// (zero when the timeline has fewer raster durations), and is janky exactly when the
/// two together exceed the budget.
pub proof fn law_frames_pair_durations_by_rank(events: Seq<JsonValue>, budget: u64)
    ensures
        spec_frame_timings(events, budget).len() == spec_paired_durations(events, BUILD_EVENT@).len(),
        forall|i: int| 0 <= i < spec_paired_durations(events, BUILD_EVENT@).len() ==> {
            let f = #[trigger] spec_frame_timings(events, budget)[i];
            let build = spec_paired_durations(events, BUILD_EVENT@);
            let raster = spec_paired_durations(events, RASTER_EVENT@);
            &&& f.frame_number == i as u64
            &&& f.build_duration_us == build[i]
            &&& (i < raster.len() ==> f.raster_duration_us == raster[i])
            &&& (i >= raster.len() ==> f.raster_duration_us == 0)
            &&& (f.is_janky <==> f.build_duration_us + f.raster_duration_us > budget)
        },
{
    let build = spec_paired_durations(events, BUILD_EVENT@);
    let raster = spec_paired_durations(events, RASTER_EVENT@);
    assert forall|i: int| 0 <= i < build.len() implies {
        let f = #[trigger] spec_frame_timings(events, budget)[i];
        &&& f.frame_number == i as u64
        &&& f.build_duration_us == build[i]
        &&& (i < raster.len() ==> f.raster_duration_us == raster[i])
        &&& (i >= raster.len() ==> f.raster_duration_us == 0)
        &&& (f.is_janky <==> f.build_duration_us + f.raster_duration_us > budget)
    } by {
        assert(spec_frame_timings(events, budget)[i] == spec_frame_timing(build, raster, i, budget));
    }
}

/// An event of another name leaves the durations of `name` and the open `B` event as
/// they were.
pub proof fn law_other_events_are_ignored(events: Seq<JsonValue>, e: JsonValue, name: Seq<char>)
    requires
        spec_get_str(e, "name"@) != Some(name),
    ensures
        spec_pairing(events.push(e), name) == spec_pairing(events, name),
{
    assert(events.push(e).drop_last() == events);
}

/// A `B` event at `t1` followed by an `E` event at `t2` of the same name adds the
/// duration `t2 - t1` (zero when negative) after the durations paired before them.
pub proof fn law_begin_end_pair_adds_duration(events: Seq<JsonValue>, b: JsonValue, e: JsonValue, name: Seq<char>, t1: i64, t2: i64)
    requires
        spec_get_str(b, "name"@) == Some(name),
        spec_get_str(b, "ph"@) == Some("B"@),
        spec_get_i64(b, "ts"@) == Some(t1),
        spec_get_str(e, "name"@) == Some(name),
        spec_get_str(e, "ph"@) == Some("E"@),
        spec_get_i64(e, "ts"@) == Some(t2),
    ensures
        spec_paired_durations(events.push(b).push(e), name)
            == spec_paired_durations(events, name).push(if t2 >= t1 { (t2 - t1) as u64 } else { 0 }),
        spec_pairing(events.push(b).push(e), name).1 is None,
{
    reveal_strlit("B");
    reveal_strlit("E");
    assert("B"@ != "E"@) by {
        assert("B"@[0] != "E"@[0]);
    }
    let eb = events.push(b);
    assert(eb.push(e).drop_last() == eb);
    assert(eb.drop_last() == events);
    assert(eb.last() == b);
    assert(eb.push(e).last() == e);
    let (d0, p0) = spec_pairing(events, name);
    assert(spec_pairing(eb, name) == (d0, Some(t1)));
    assert(spec_pairing(eb.push(e), name) == (d0.push(clamp_duration(t2 - t1)), None::<i64>));
}

/// A complete `X` event with duration `d` adds `d` (zero when negative) after the
/// durations paired before it, leaving an open `B` event open.
pub proof fn law_complete_event_adds_duration(events: Seq<JsonValue>, x: JsonValue, name: Seq<char>, d: i64)
    requires
        spec_get_str(x, "name"@) == Some(name),
        spec_get_str(x, "ph"@) == Some("X"@),
        spec_get_i64(x, "dur"@) == Some(d),
    ensures
        spec_paired_durations(events.push(x), name)
            == spec_paired_durations(events, name).push(if d >= 0 { d as u64 } else { 0 }),
        spec_pairing(events.push(x), name).1 == spec_pairing(events, name).1,
{
    reveal_strlit("B");
    reveal_strlit("E");
    reveal_strlit("X");
    assert(events.push(x).drop_last() == events);
    assert("X"@ != "B"@) by {
        assert("X"@[0] != "B"@[0]);
    }
    assert("X"@ != "E"@) by {
        assert("X"@[0] != "E"@[0]);
    }
}

} // verus!
