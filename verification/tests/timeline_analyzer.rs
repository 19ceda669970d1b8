use flutter_mcp::entities::FrameTiming;
use flutter_mcp::json::{JsonNumber, JsonValue};
use flutter_mcp::services::timeline_analyzer::{TimelineAnalyzer, DEFAULT_FRAME_BUDGET_US};

fn s(v: &str) -> JsonValue {
    JsonValue::String(v.to_string())
}

fn num(n: i64) -> JsonValue {
    if n >= 0 {
        JsonValue::Number(JsonNumber::PosInt(n as u64))
    } else {
        JsonValue::Number(JsonNumber::NegInt(n))
    }
}

fn obj(fields: Vec<(&str, JsonValue)>) -> JsonValue {
    JsonValue::Object(fields.into_iter().map(|(k, v)| (k.to_string(), v)).collect())
}

fn begin_end(name: &str, start: i64, end: i64) -> Vec<JsonValue> {
    vec![
        obj(vec![("name", s(name)), ("ph", s("B")), ("ts", num(start))]),
        obj(vec![("name", s(name)), ("ph", s("E")), ("ts", num(end))]),
    ]
}

#[test]
fn test_computes_frame_timing_from_begin_end_pairs() {
    let mut events = begin_end("Animator::BeginFrame", 1_000, 9_000);
    events.extend(begin_end("Rasterizer::DrawToSurfaces", 9_000, 15_000));

    let frames = TimelineAnalyzer::compute_frame_timings(&events, DEFAULT_FRAME_BUDGET_US);
    assert_eq!(frames.len(), 1);
    assert_eq!(frames[0].build_duration_us, 8_000);
    assert_eq!(frames[0].raster_duration_us, 6_000);
    assert!(!frames[0].is_janky);
}

#[test]
fn test_marks_frame_as_janky_when_over_budget() {
    let mut events = begin_end("Animator::BeginFrame", 0, 12_000);
    events.extend(begin_end("Rasterizer::DrawToSurfaces", 12_000, 20_000));

    let frames = TimelineAnalyzer::compute_frame_timings(&events, DEFAULT_FRAME_BUDGET_US);
    assert!(frames[0].is_janky);
}

#[test]
fn test_summarize_computes_averages_and_worst_frame() {
    let frames = vec![
        FrameTiming {
            frame_number: 0,
            build_duration_us: 4_000,
            raster_duration_us: 4_000,
            is_janky: false,
        },
        FrameTiming {
            frame_number: 1,
            build_duration_us: 20_000,
            raster_duration_us: 10_000,
            is_janky: true,
        },
    ];

    let report = TimelineAnalyzer::summarize(&frames);
    assert_eq!(report.frame_count, 2);
    assert_eq!(report.janky_count, 1);
    assert_eq!(report.avg_build_us, 12_000);
    assert_eq!(report.worst_frame.unwrap().frame_number, 1);
}

// Own tests.

#[test]
fn complete_events_use_their_duration_and_negative_durations_clamp_to_zero() {
    let events = vec![
        obj(vec![("name", s("Animator::BeginFrame")), ("ph", s("X")), ("ts", num(0)), ("dur", num(3_000))]),
        obj(vec![("name", s("Rasterizer::DrawToSurfaces")), ("ph", s("B")), ("ts", num(10_000))]),
        obj(vec![("name", s("Rasterizer::DrawToSurfaces")), ("ph", s("E")), ("ts", num(9_000))]),
    ];
    let frames = TimelineAnalyzer::compute_frame_timings(&events, DEFAULT_FRAME_BUDGET_US);
    assert_eq!(frames.len(), 1);
    assert_eq!(frames[0].build_duration_us, 3_000);
    assert_eq!(frames[0].raster_duration_us, 0);
}

#[test]
fn frames_without_raster_events_count_zero_raster_time() {
    let events = begin_end("Animator::BeginFrame", 0, 1_000);
    let frames = TimelineAnalyzer::compute_frame_timings(&events, DEFAULT_FRAME_BUDGET_US);
    assert_eq!(frames.len(), 1);
    assert_eq!(frames[0].build_duration_us, 1_000);
    assert_eq!(frames[0].raster_duration_us, 0);
}

#[test]
fn summary_of_no_frames_is_empty() {
    let report = TimelineAnalyzer::summarize(&Vec::new());
    assert_eq!(report.frame_count, 0);
    assert_eq!(report.janky_count, 0);
    assert_eq!(report.avg_build_us, 0);
    assert_eq!(report.avg_raster_us, 0);
    assert!(report.worst_frame.is_none());
}

#[test]
fn worst_frame_ties_go_to_the_last() {
    let f = |n: u64| FrameTiming { frame_number: n, build_duration_us: 5, raster_duration_us: 5, is_janky: false };
    let report = TimelineAnalyzer::summarize(&vec![f(0), f(1), f(2)]);
    assert_eq!(report.worst_frame.unwrap().frame_number, 2);
    assert_eq!(report.avg_raster_us, 5);
}
