use pebble::graphics::pipeline::buffers::Buffer;
use pebble::graphics::render::frame::{
    ColorTarget, CurrentFrame, DepthTarget, Frame, LoadOp, Pass, TimestampWrites,
};
use pebble::graphics::render::timestamps::GpuTimestamps;
use pebble::graphics::types::{BufferUsages, DeviceFeatures};

type TestFrame = Frame<Vec<&'static str>, Vec<&'static str>, &'static str, &'static str>;

fn frame() -> TestFrame {
    Frame::new(Vec::new(), "frame view", "surface")
}

fn pool(capacity: u32) -> GpuTimestamps<u32> {
    let features = DeviceFeatures { timestamp_query: true };
    GpuTimestamps::new(features, capacity, |queries| queries).unwrap()
}

fn bytes(ticks: &[u64]) -> Vec<u8> {
    ticks.iter().flat_map(|tick| tick.to_le_bytes()).collect()
}

fn pass<'a>() -> Pass<'a, &'static str, [u8; 4], u8> {
    Pass { colors: Vec::new(), depth: None }
}

#[test]
fn every_pass_records_into_its_own_encoder() {
    let mut frame = frame();
    frame.begin(pass(), Vec::new, |encoder| encoder).0.push("one");
    frame.begin_compute(Some("label"), Vec::new, |encoder| encoder).0.push("two");
    frame.begin(pass(), Vec::new, |encoder| encoder).0.push("three");
    let (recorded, surface) = frame.finish(|encoder| encoder);
    assert_eq!(recorded, vec![vec!["one"], vec!["two"], vec!["three"]]);
    assert_eq!(surface, "surface");
}

#[test]
fn a_frame_without_passes_still_has_its_encoder() {
    let (recorded, _) = frame().finish(|encoder| encoder);
    assert_eq!(recorded, vec![Vec::<&str>::new()]);
}

#[test]
fn a_copy_shares_the_encoder_with_what_is_around_it() {
    let source = Buffer { handle: "source", size: 24, usage: BufferUsages::copy_src() };
    let target = Buffer { handle: "target", size: 99, usage: BufferUsages::copy_dst() };
    let mut frame = frame();
    frame.copy_buffer(&source, &target).0.push("copy before");
    frame.begin(pass(), Vec::new, |encoder| encoder).0.push("pass");
    let (encoder, copy) = frame.copy_buffer(&source, &target);
    encoder.push("copy after");
    assert_eq!((*copy.source, *copy.target, copy.size), ("source", "target", 24));
    assert_eq!((copy.source_offset, copy.target_offset), (0, 0));
    frame.begin(pass(), Vec::new, |encoder| encoder).0.push("next");
    let (recorded, _) = frame.finish(|encoder| encoder);
    assert_eq!(recorded, vec![vec!["copy before", "pass", "copy after"], vec!["next"]]);
}

#[test]
fn targets_become_attachments() {
    let mut frame = frame();
    let pass = Pass {
        colors: vec![
            ColorTarget { attachment: None, clear: Some([1, 2, 3, 4]) },
            ColorTarget { attachment: Some(&"texture view"), clear: None },
        ],
        depth: Some(DepthTarget { attachment: &"depth view", clear: Some(9) }),
    };
    let (_, plan) = frame.begin(pass, Vec::new, |encoder| encoder);
    assert_eq!(plan.colors.len(), 2);
    assert_eq!(*plan.colors[0].view, "frame view");
    assert!(matches!(plan.colors[0].load, LoadOp::Clear([1, 2, 3, 4])));
    assert!(plan.colors[0].store);
    assert_eq!(*plan.colors[1].view, "texture view");
    assert!(matches!(plan.colors[1].load, LoadOp::Load));
    let depth = plan.depth.unwrap();
    assert_eq!(*depth.view, "depth view");
    assert!(matches!(depth.load, LoadOp::Clear(9)));
    assert!(plan.timestamps.is_none());
}

#[test]
fn timed_passes_claim_scopes_until_none_are_left() {
    let mut frame = frame();
    let mut timestamps = pool(2);
    let (_, plan) =
        frame.begin_timed(pass(), "render", &mut timestamps, Vec::new, |encoder| encoder);
    assert_eq!(plan.timestamps, Some(TimestampWrites { begin: 0, end: 1 }));
    let (_, plan) =
        frame.begin_compute_timed("compute", &mut timestamps, Vec::new, |encoder| encoder);
    assert_eq!(plan.timestamps, Some(TimestampWrites { begin: 2, end: 3 }));
    assert_eq!(plan.label, Some("compute"));
    let (_, plan) =
        frame.begin_timed(pass(), "late", &mut timestamps, Vec::new, |encoder| encoder);
    assert_eq!(plan.timestamps, None);
    assert_eq!(timestamps.used(), 2);
    timestamps.begin_frame();
    assert_eq!(timestamps.used(), 0);
    assert_eq!(timestamps.claim("again"), Some((0, 1)));
}

#[test]
fn claimed_scopes_are_resolved_into_a_command_buffer_of_their_own() {
    let target = Buffer { handle: "target", size: 32, usage: BufferUsages::query_resolve() };
    let mut timestamps = pool(2);
    let mut frame = frame();
    let nothing = frame.resolve_timestamps(&mut timestamps, &target, Vec::new, |encoder| encoder);
    assert!(nothing.is_none());
    frame
        .begin_timed(pass(), "render", &mut timestamps, Vec::new, |encoder| encoder)
        .0
        .push("pass");
    let (encoder, plan) = frame
        .resolve_timestamps(&mut timestamps, &target, Vec::new, |encoder| encoder)
        .unwrap();
    encoder.push("resolve");
    assert_eq!((plan.queries, *plan.target, plan.target_offset), (2, "target", 0));
    let (recorded, _) = frame.finish(|encoder| encoder);
    assert_eq!(recorded, vec![vec!["pass"], vec!["resolve"]]);
    assert_eq!(timestamps.decode(&bytes(&[5, 8])), vec![("render", 3)]);
}

#[test]
fn the_pool_needs_the_feature() {
    let features = DeviceFeatures { timestamp_query: false };
    assert!(GpuTimestamps::new(features, 4, |queries| queries).is_none());
    let timestamps = pool(4);
    assert_eq!(*timestamps.raw(), 8);
    assert_eq!(timestamps.resolve_size(), 64);
}

fn resolved(labels: &[&'static str]) -> GpuTimestamps<u32> {
    let mut timestamps = pool(8);
    for label in labels {
        timestamps.claim(label);
    }
    timestamps.snapshot_resolved();
    timestamps
}

#[test]
fn intervals_count_from_the_earliest_begin() {
    let timestamps = resolved(&["a", "b", "c"]);
    let read = bytes(&[120, 150, 100, 130, 140, 0]);
    assert_eq!(
        timestamps.decode_intervals(&read),
        vec![("a", 20, 50), ("b", 0, 30), ("c", 40, 40)]
    );
}

#[test]
fn scopes_that_were_not_written_or_read_back_are_left_out() {
    let timestamps = resolved(&["a", "b", "c"]);
    let mut read = bytes(&[0, 150, 100, 130, 90]);
    read.push(7);
    assert_eq!(timestamps.decode_intervals(&read), vec![("b", 10, 40)]);
    assert_eq!(timestamps.decode_intervals(&[]), Vec::new());
    assert_eq!(timestamps.decode_intervals(&bytes(&[0, 0, 0, 0, 0, 0])), Vec::new());
}

#[test]
fn durations_drop_scopes_that_did_not_advance() {
    let timestamps = resolved(&["a", "b", "c", "d"]);
    let read = bytes(&[120, 150, 100, 100, 140, 0, 0, 6]);
    assert_eq!(timestamps.decode(&read), vec![("a", 30), ("d", 6)]);
    assert_eq!(timestamps.decode(&bytes(&[1, 0x0102_0304_0506_0708])), vec![
        ("a", 0x0102_0304_0506_0707)
    ]);
}

#[test]
fn decoding_goes_by_the_labels_of_the_last_resolve() {
    let mut timestamps = resolved(&["old"]);
    timestamps.begin_frame();
    timestamps.claim("new");
    assert_eq!(timestamps.decode(&bytes(&[1, 2])), vec![("old", 1)]);
}

#[test]
fn the_current_frame_can_be_set_used_and_taken() {
    let mut current = CurrentFrame::default();
    assert!(current.active().is_none());
    current.set(frame());
    let active = current.active().unwrap();
    active.begin_pass(pass(), Vec::new, |encoder| encoder).0.push("pass");
    let frame: TestFrame = current.take().unwrap();
    assert!(current.take().is_none());
    assert_eq!(frame.finish(|encoder| encoder).0, vec![vec!["pass"]]);
}
