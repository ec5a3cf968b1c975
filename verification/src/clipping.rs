//! The decisions of the Cohen–Sutherland clipping of a segment against a
//! box, which finds where the grapple's line first meets a block: each end
//! of the segment gets a region code telling on which sides of the box it
//! lies, and the codes decide whether the segment is inside, misses, or has
//! an end to be moved onto an edge of the box.
use vstd::prelude::*;

verus! {

/// The point lies within the box.
pub const CS_IN: u8 = 0b0000;
/// The point lies left of the box.
pub const CS_LEFT: u8 = 0b0001;
/// The point lies right of the box.
pub const CS_RIGHT: u8 = 0b0010;
/// The point lies past the box's largest y.
pub const CS_DOWN: u8 = 0b0100;
/// The point lies short of the box's smallest y.
pub const CS_UP: u8 = 0b1000;

/// The region code of a point from how it compares with the box: left of
/// it, else right of it; and short of its smallest y, else past its largest.
pub open spec fn spec_region_code(left: bool, right: bool, up: bool, down: bool) -> u8 {
    (if left {
        CS_LEFT
    } else if right {
        CS_RIGHT
    } else {
        CS_IN
    }) | (if up {
        CS_UP
    } else if down {
        CS_DOWN
    } else {
        CS_IN
    })
}

pub fn region_code(left: bool, right: bool, up: bool, down: bool) -> (c: u8)
    ensures
        c == spec_region_code(left, right, up, down),
        c < 16,
{
    let horizontal: u8 = if left {
        CS_LEFT
    } else if right {
        CS_RIGHT
    } else {
        CS_IN
    };
    let vertical: u8 = if up {
        CS_UP
    } else if down {
        CS_DOWN
    } else {
        CS_IN
    };
    assert(horizontal < 4 && (vertical == 0 || vertical == 4 || vertical == 8) ==> (horizontal
        | vertical) < 16) by (bit_vector);
    horizontal | vertical
}

/// The line of a box edge that a point outside the box is moved onto: the
/// one at the box's largest or smallest y, or largest or smallest x.
#[derive(Clone, Copy, PartialEq, Eq, Structural, Debug)]
pub enum ClipEdge {
    MaxY,
    MinY,
    MaxX,
    MinX,
}

/// One step of the clipping.
#[derive(Clone, Copy, PartialEq, Eq, Structural, Debug)]
pub enum ClipStep {
    /// Both ends are within the box: the segment meets it at its start.
    Accept,
    /// Both ends lie beyond one same side: the segment misses the box.
    Reject,
    /// Move the start onto the line of this edge (or, with no edge bit in
    /// its code, leave the crossing point as it was).
    ClipStart(Option<ClipEdge>),
    /// Move the end onto the line of this edge.
    ClipEnd(Option<ClipEdge>),
}

/// The edge line that a point with region code `code` is moved onto, the
/// near edge of the side it lies beyond: for the up bit (short of the
/// smallest y) the line of smallest y, then for the down bit (past the
/// largest y) the line of largest y, for the right bit that of largest x,
/// for the left bit that of smallest x.
pub open spec fn spec_clip_edge(code: u8) -> Option<ClipEdge> {
    if code & CS_UP != 0 {
        Some(ClipEdge::MinY)
    } else if code & CS_DOWN != 0 {
        Some(ClipEdge::MaxY)
    } else if code & CS_RIGHT != 0 {
        Some(ClipEdge::MaxX)
    } else if code & CS_LEFT != 0 {
        Some(ClipEdge::MinX)
    } else {
        None
    }
}

pub open spec fn spec_clip_step(start_code: u8, end_code: u8) -> ClipStep {
    if start_code | end_code == CS_IN {
        ClipStep::Accept
    } else if start_code & end_code != 0 {
        ClipStep::Reject
    } else if start_code != 0 {
        ClipStep::ClipStart(spec_clip_edge(start_code))
    } else {
        ClipStep::ClipEnd(spec_clip_edge(end_code))
    }
}

pub fn clip_edge(code: u8) -> (e: Option<ClipEdge>)
    ensures
        e == spec_clip_edge(code),
{
    if code & CS_UP != 0 {
        Some(ClipEdge::MinY)
    } else if code & CS_DOWN != 0 {
        Some(ClipEdge::MaxY)
    } else if code & CS_RIGHT != 0 {
        Some(ClipEdge::MaxX)
    } else if code & CS_LEFT != 0 {
        Some(ClipEdge::MinX)
    } else {
        None
    }
}

/// What to do with a segment whose ends have the region codes
/// `start_code` and `end_code`: accept it when both are within the box,
/// reject it when both lie beyond a same side, and otherwise move an end
/// that is outside (the start, if it is) onto the edge its code names first.
pub fn clip_step(start_code: u8, end_code: u8) -> (s: ClipStep)
    ensures
        s == spec_clip_step(start_code, end_code),
{
    if start_code | end_code == CS_IN {
        ClipStep::Accept
    } else if start_code & end_code != 0 {
        ClipStep::Reject
    } else if start_code != 0 {
        ClipStep::ClipStart(clip_edge(start_code))
    } else {
        ClipStep::ClipEnd(clip_edge(end_code))
    }
}

/// An end within the box is never moved, a segment with both ends within
/// it is accepted, an end that is moved has the region bit of the edge line
/// it is moved onto, and a region code made of the four bits always names
/// a line.
pub proof fn lemma_clip_moves_outside_end(start_code: u8, end_code: u8)
    ensures
        start_code == 0 && end_code == 0 ==> spec_clip_step(start_code, end_code) == ClipStep::Accept,
        start_code == 0 ==> !(spec_clip_step(start_code, end_code) is ClipStart),
        end_code == 0 ==> !(spec_clip_step(start_code, end_code) is ClipEnd),
        spec_clip_step(start_code, end_code) matches ClipStep::ClipStart(Some(e)) ==> start_code
            & edge_bit(e) != 0,
        spec_clip_step(start_code, end_code) matches ClipStep::ClipEnd(Some(e)) ==> end_code
            & edge_bit(e) != 0,
        start_code < 16 && spec_clip_step(start_code, end_code) is ClipStart
            ==> spec_clip_step(start_code, end_code)->ClipStart_0 is Some,
        end_code < 16 && spec_clip_step(start_code, end_code) is ClipEnd
            ==> spec_clip_step(start_code, end_code)->ClipEnd_0 is Some,
{
    assert(0u8 | 0u8 == 0u8) by (bit_vector);
    assert(forall|a: u8| #![auto] (0u8 | a) == 0u8 ==> a == 0u8) by (bit_vector);
    assert(forall|a: u8| #![auto] (a | 0u8) == 0u8 ==> a == 0u8) by (bit_vector);
    assert(forall|a: u8|
        a < 16 && a != 0 ==> #[trigger] (a & 8u8) != 0 || (a & 4u8) != 0 || (a & 2u8) != 0 || (a & 1u8)
            != 0) by (bit_vector);
}

/// The region bit that sends a point onto an edge line: the bit of the side
/// that the line bounds.
pub open spec fn edge_bit(e: ClipEdge) -> u8 {
    match e {
        ClipEdge::MinY => CS_UP,
        ClipEdge::MaxY => CS_DOWN,
        ClipEdge::MaxX => CS_RIGHT,
        ClipEdge::MinX => CS_LEFT,
    }
}

/// The decisions of the clipping, over all pairs of region codes: a
/// segment with both ends in the box is accepted; one whose ends both lie
/// beyond a same side of the box (their codes share a bit) misses it and is
/// rejected; otherwise an end outside the box is moved, the start first, and
/// only an end that is outside.
pub proof fn lemma_clip_decisions(start_code: u8, end_code: u8)
    ensures
        (start_code | end_code == 0) <==> (spec_clip_step(start_code, end_code) == ClipStep::Accept),
        start_code | end_code != 0 && start_code & end_code != 0 ==> spec_clip_step(start_code, end_code)
            == ClipStep::Reject,
        spec_clip_step(start_code, end_code) == ClipStep::Reject ==> start_code & end_code != 0,
        start_code & end_code == 0 && start_code != 0 ==> spec_clip_step(start_code, end_code) is ClipStart,
        start_code == 0 && end_code != 0 ==> spec_clip_step(start_code, end_code) is ClipEnd,
{
    assert(forall|a: u8, b: u8| #![auto] (a | b) == 0u8 <==> (a == 0u8 && b == 0u8)) by (bit_vector);
    assert(forall|a: u8, b: u8| #![auto] a == 0u8 ==> (a & b) == 0u8) by (bit_vector);
}

/// An outside end is moved onto the near edge line of a side it lies beyond,
/// the sides above and below the box taking precedence: a point short of the
/// smallest y goes onto the smallest-y line, one past the largest y onto the
/// largest-y line, and only a point within the y range of the box is moved
/// onto a vertical line (largest x if it lies right of the box, smallest x if
/// left).
pub proof fn lemma_clip_edge_is_near(code: u8)
    ensures
        code & CS_UP != 0 ==> spec_clip_edge(code) == Some(ClipEdge::MinY),
        code & CS_UP == 0 && code & CS_DOWN != 0 ==> spec_clip_edge(code) == Some(ClipEdge::MaxY),
        spec_clip_edge(code) == Some(ClipEdge::MaxX) ==> code & CS_RIGHT != 0 && code & (CS_UP | CS_DOWN) == 0,
        spec_clip_edge(code) == Some(ClipEdge::MinX) ==> code & CS_LEFT != 0 && code & (CS_UP | CS_DOWN
            | CS_RIGHT) == 0,
        spec_clip_edge(code) == Some(ClipEdge::MinY) ==> code & CS_UP != 0,
        spec_clip_edge(code) == Some(ClipEdge::MaxY) ==> code & CS_DOWN != 0 && code & CS_UP == 0,
        spec_clip_edge(code) is None <==> code & 0b1111 == 0,
{
    assert(8u8 | 4u8 == 12u8 && 8u8 | 4u8 | 2u8 == 14u8 && ((code & 8u8) == 0u8 && (code & 4u8) == 0u8
        ==> (code & 12u8) == 0u8) && ((code & 8u8) == 0u8 && (code & 4u8) == 0u8 && (code & 2u8) == 0u8
        ==> (code & 14u8) == 0u8) && ((code & 15u8) == 0u8 <==> ((code & 8u8) == 0u8 && (code & 4u8)
        == 0u8 && (code & 2u8) == 0u8 && (code & 1u8) == 0u8))) by (bit_vector);
}

/// The region code says on which sides a point lies: the left bit exactly
/// when it lies left, the right bit when it lies right and not left, the up
/// bit when it lies short of the smallest y, the down bit when it lies past
/// the largest y and not short of the smallest; a point within the box has
/// code 0.
pub proof fn lemma_region_code_sides(left: bool, right: bool, up: bool, down: bool)
    ensures
        (spec_region_code(left, right, up, down) & CS_LEFT != 0) == left,
        (spec_region_code(left, right, up, down) & CS_RIGHT != 0) == (right && !left),
        (spec_region_code(left, right, up, down) & CS_UP != 0) == up,
        (spec_region_code(left, right, up, down) & CS_DOWN != 0) == (down && !up),
        (spec_region_code(left, right, up, down) == 0) == (!left && !right && !up && !down),
{
    let h: u8 = if left { 1 } else if right { 2 } else { 0 };
    let v: u8 = if up { 8 } else if down { 4 } else { 0 };
    assert(spec_region_code(left, right, up, down) == h | v);
    assert((h == 0 || h == 1 || h == 2) && (v == 0 || v == 4 || v == 8) ==> {
        &&& ((h | v) & 1u8 != 0) == (h == 1)
        &&& ((h | v) & 2u8 != 0) == (h == 2)
        &&& ((h | v) & 8u8 != 0) == (v == 8)
        &&& ((h | v) & 4u8 != 0) == (v == 4)
        &&& ((h | v) == 0) == (h == 0 && v == 0)
    }) by (bit_vector);
}

} // verus!
