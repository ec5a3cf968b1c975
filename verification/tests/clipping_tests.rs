use noise::clipping::{clip_edge, clip_step, region_code, ClipEdge, ClipStep, CS_DOWN, CS_IN, CS_LEFT, CS_RIGHT, CS_UP};

#[test]
fn region_codes() {
    assert_eq!(region_code(false, false, false, false), CS_IN);
    assert_eq!(region_code(true, false, true, false), CS_LEFT | CS_UP);
    assert_eq!(region_code(false, true, false, true), CS_RIGHT | CS_DOWN);
    // left wins over right, and up over down
    assert_eq!(region_code(true, true, true, true), 0b1001);
}

#[test]
fn clip_steps() {
    assert_eq!(clip_step(CS_IN, CS_IN), ClipStep::Accept);
    assert_eq!(clip_step(CS_LEFT, CS_LEFT | CS_UP), ClipStep::Reject);
    assert_eq!(clip_step(CS_LEFT | CS_UP, CS_IN), ClipStep::ClipStart(Some(ClipEdge::MinY)));
    assert_eq!(clip_step(CS_IN, CS_RIGHT), ClipStep::ClipEnd(Some(ClipEdge::MaxX)));
    assert_eq!(clip_step(CS_LEFT, CS_RIGHT), ClipStep::ClipStart(Some(ClipEdge::MinX)));
    assert_eq!(clip_step(CS_DOWN, CS_UP), ClipStep::ClipStart(Some(ClipEdge::MaxY)));
    assert_eq!(clip_step(0b1_0000, CS_IN), ClipStep::ClipStart(None));
}

#[test]
fn clip_edge_order() {
    assert_eq!(clip_edge(CS_UP | CS_DOWN | CS_LEFT), Some(ClipEdge::MinY));
    assert_eq!(clip_edge(CS_DOWN | CS_RIGHT), Some(ClipEdge::MaxY));
    assert_eq!(clip_edge(CS_RIGHT | CS_LEFT), Some(ClipEdge::MaxX));
    assert_eq!(clip_edge(CS_LEFT), Some(ClipEdge::MinX));
    assert_eq!(clip_edge(CS_IN), None);
}

#[test]
fn segment_from_above_enters_at_the_near_edge() {
    // start (5, -5) is short of the box's smallest y; end (5, 5) is inside
    let start = region_code(5.0 < 0.0, 5.0 > 10.0, -5.0 < 0.0, -5.0 > 10.0);
    let end = region_code(false, false, false, false);
    assert_eq!(start, CS_UP);
    assert_eq!(clip_step(start, end), ClipStep::ClipStart(Some(ClipEdge::MinY)));
}
