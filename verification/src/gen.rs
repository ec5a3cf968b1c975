//! The level generator's discrete parts: the kinds of generated blocks and
//! tiles, the layout of a pagoda platform on the tile grid, and the state of
//! one octave of the noise that shapes the ground.
use vstd::prelude::*;
use rand::Rng;
use crate::flags::Border;

verus! {

pub enum GhostBlockType {
    Block,
    Platform,
}

#[derive(Clone, Copy, PartialEq, Eq, Structural, Debug)]
pub enum TileEdge {
    Left,
    Center,
    Right,
}

pub enum GhostTileType {
    PagodaBack(TileEdge),
    PagodaRoof(TileEdge),
    Decor(String),
}

/// Where a pagoda tile goes, in whole tiles from the platform's origin
/// (`row` −1 is the roof row, one tile above the back row 0), and which tile
/// it is.
#[derive(Clone, Copy, PartialEq, Eq, Structural, Debug)]
pub struct PagodaTile {
    pub column: i64,
    pub row: i64,
    pub roof: bool,
    pub edge: TileEdge,
}

impl PagodaTile {
    pub fn tile_type(&self) -> (t: GhostTileType)
        ensures
            self.roof ==> t == GhostTileType::PagodaRoof(self.edge),
            !self.roof ==> t == GhostTileType::PagodaBack(self.edge),
    {
        if self.roof {
            GhostTileType::PagodaRoof(self.edge)
        } else {
            GhostTileType::PagodaBack(self.edge)
        }
    }
}

pub open spec fn tile(column: int, row: int, roof: bool, edge: TileEdge) -> PagodaTile {
    PagodaTile { column: column as i64, row: row as i64, roof: roof, edge: edge }
}

pub open spec fn left_border() -> Border {
    Border { bits: 0b0001 }
}

pub open spec fn right_border() -> Border {
    Border { bits: 0b0010 }
}

/// The tiles of the `middle` columns between the two ends: a back tile and
/// a roof tile in each of the columns 1 to `middle`.
pub open spec fn pagoda_middle(middle: nat) -> Seq<PagodaTile> {
    Seq::new(
        2 * middle,
        |i: int|
            if i % 2 == 0 {
                tile(i / 2 + 1, 0, false, TileEdge::Center)
            } else {
                tile(i / 2 + 1, -1, true, TileEdge::Center)
            },
    )
}

/// The tiles of a pagoda platform with `middle` columns between its ends:
/// the left end (a back tile, and a roof tile that overhangs by one column),
/// the roof above it, the middle columns, then the right end (a back tile if
/// the right border is drawn, the roof above, and an overhanging roof tile if
/// the right border is drawn). Only the left and right borders matter.
pub open spec fn pagoda_layout(edges: Border, middle: nat) -> Seq<PagodaTile> {
    let left_edge = if edges.spec_contains(left_border()) {
        TileEdge::Left
    } else {
        TileEdge::Center
    };
    let right = edges.spec_contains(right_border());
    let c: int = middle as int + 1;
    seq![tile(0, 0, false, left_edge), tile(-1, -1, true, left_edge), tile(0, -1, true, TileEdge::Center)]
        + pagoda_middle(middle) + (if right {
        seq![tile(c, 0, false, TileEdge::Right)]
    } else {
        Seq::empty()
    }) + seq![tile(c, -1, true, TileEdge::Center)] + (if right {
        seq![tile(c + 1, -1, true, TileEdge::Right)]
    } else {
        Seq::empty()
    })
}

/// Lays out the tiles of a pagoda platform with `middle` columns between its
/// ends, drawing the left and right borders that `edges` holds.
pub fn pagoda_platform_layout(edges: Border, middle: usize) -> (ts: Vec<PagodaTile>)
    requires
        middle + 2 <= i64::MAX,
    ensures
        ts@ == pagoda_layout(edges, middle as nat),
{
    let mut ts: Vec<PagodaTile> = Vec::new();
    let left_edge = if edges.contains(Border::left()) {
        TileEdge::Left
    } else {
        TileEdge::Center
    };
    ts.push(PagodaTile { column: 0, row: 0, roof: false, edge: left_edge });
    ts.push(PagodaTile { column: -1, row: -1, roof: true, edge: left_edge });
    ts.push(PagodaTile { column: 0, row: -1, roof: true, edge: TileEdge::Center });
    let ghost start = ts@;
    let mut k: usize = 0;
    while k < middle
        invariant
            k <= middle,
            middle + 2 <= i64::MAX,
            ts@ == start + pagoda_middle(k as nat),
        decreases middle - k,
    {
        let col = (k + 1) as i64;
        ts.push(PagodaTile { column: col, row: 0, roof: false, edge: TileEdge::Center });
        ts.push(PagodaTile { column: col, row: -1, roof: true, edge: TileEdge::Center });
        assert(pagoda_middle((k + 1) as nat) =~= pagoda_middle(k as nat).push(
            tile(k + 1, 0, false, TileEdge::Center),
        ).push(tile(k + 1, -1, true, TileEdge::Center)));
        k = k + 1;
    }
    let c = (middle as i64) + 1;
    let right = edges.contains(Border::right());
    if right {
        ts.push(PagodaTile { column: c, row: 0, roof: false, edge: TileEdge::Right });
    }
    ts.push(PagodaTile { column: c, row: -1, roof: true, edge: TileEdge::Center });
    if right {
        ts.push(PagodaTile { column: c + 1, row: -1, roof: true, edge: TileEdge::Right });
    }
    assert(ts@ =~= pagoda_layout(edges, middle as nat));
    ts
}

/// What a pagoda platform looks like, for every border set and every width
/// whose column numbers fit an `i64`: it
/// has a back and a roof tile in each of its columns plus the overhangs; its
/// left end (back tile at the origin and the overhanging roof tile) carries
/// the left border exactly when the left bit is set, whatever the other
/// bits; its right end carries the right border (a back tile and an
/// overhanging roof tile) exactly when the right bit is set; every tile in
/// between is a plain centre tile.
pub proof fn lemma_pagoda_borders(edges: Border, middle: nat)
    requires
        middle + 2 <= i64::MAX,
    ensures
        ({
            let ts = pagoda_layout(edges, middle);
            let left = edges.bits & 0b0001 != 0;
            let right = edges.bits & 0b0010 != 0;
            &&& ts.len() == 2 * middle + 4 + (if right { 2int } else { 0int })
            &&& ts[0] == tile(0, 0, false, if left { TileEdge::Left } else { TileEdge::Center })
            &&& ts[1] == tile(-1, -1, true, if left { TileEdge::Left } else { TileEdge::Center })
            &&& ts[2] == tile(0, -1, true, TileEdge::Center)
            &&& forall|i: int| 3 <= i < 3 + 2 * middle ==> (#[trigger] ts[i]).edge == TileEdge::Center
                && ts[i].column == (i - 3) / 2 + 1
            &&& right ==> ts[3 + 2 * middle as int] == tile(middle + 1int, 0, false, TileEdge::Right)
                && ts[ts.len() - 1] == tile(middle + 2int, -1, true, TileEdge::Right)
            &&& !right ==> ts[ts.len() - 1] == tile(middle + 1int, -1, true, TileEdge::Center)
            &&& (exists|i: int| 0 <= i < ts.len() && (#[trigger] ts[i]).edge == TileEdge::Right) == right
            &&& (exists|i: int| 0 <= i < ts.len() && (#[trigger] ts[i]).edge == TileEdge::Left) == left
        }),
{
    let ts = pagoda_layout(edges, middle);
    let b = edges.bits;
    assert((b & 1u8 == 1u8) == (b & 1u8 != 0u8)) by (bit_vector);
    assert((b & 2u8 == 2u8) == (b & 2u8 != 0u8)) by (bit_vector);
    let left = b & 0b0001 != 0;
    let right = b & 0b0010 != 0;
    let mid = pagoda_middle(middle);
    assert forall|i: int| 3 <= i < 3 + 2 * middle implies (#[trigger] ts[i]).edge == TileEdge::Center
        && ts[i].column == (i - 3) / 2 + 1 by {
        assert(ts[i] == mid[i - 3]);
        let k = i - 3;
        assert(0 <= k / 2 + 1 <= middle);
    }
    if right {
        assert(ts[3 + 2 * middle as int].edge == TileEdge::Right);
    } else {
        assert forall|i: int| 0 <= i < ts.len() implies (#[trigger] ts[i]).edge != TileEdge::Right by {
            if 3 <= i < 3 + 2 * middle {
                assert(ts[i] == mid[i - 3]);
            }
        }
    }
    if left {
        assert(ts[0].edge == TileEdge::Left);
    } else {
        assert forall|i: int| 0 <= i < ts.len() implies (#[trigger] ts[i]).edge != TileEdge::Left by {
            if 3 <= i < 3 + 2 * middle {
                assert(ts[i] == mid[i - 3]);
            }
        }
    }
}

/// Spacing, in samples, between the nodes of the first octave; octave `i`
/// spaces its nodes `i` times as far.
pub const PERLIN_SPACING: i32 = 16;

/// The number of octaves the ground noise sums.
pub const OCTAVES: i32 = 5;

/// One octave of the ground noise: the node value it left, the node value
/// it heads for, and how many samples remain before it reaches it.
#[derive(Clone, Copy, PartialEq, Eq, Structural, Debug)]
pub struct PerlinOctave {
    pub pvalue: i32,
    pub value: i32,
    pub last_read: i32,
}

/// What one octave yields for one sample.
#[derive(Clone, Copy, PartialEq, Eq, Structural, Debug)]
pub enum OctaveSample {
    /// The sample falls on a node of this value.
    Node(i32),
    /// The sample lies between the node `from` and the node `to`, at the
    /// fraction `remaining / span` of the way back from `to` to `from`.
    Between { from: i32, to: i32, remaining: i32, span: i32 },
}

/// The sign that a random draw gives a new node: −1 for a positive odd
/// draw, +1 otherwise.
pub open spec fn node_sign(draw: i32) -> i32 {
    if draw > 0 && draw % 2 == 1 {
        -1i32
    } else {
        1i32
    }
}

pub fn sign_from_draw(draw: i32) -> (r: i32)
    ensures
        r == node_sign(draw),
{
    assert(draw > 0 ==> ((draw & 1 == 1) == (draw % 2 == 1))) by (bit_vector);
    if draw > 0 && draw & 1 == 1 {
        -1
    } else {
        1
    }
}

/// A random `i32` from `rand::thread_rng().gen::<i32>()`. The value depends
/// on the thread's random generator, so nothing is claimed of it.
#[verifier::external_body]
fn random_i32() -> i32 {
    rand::thread_rng().gen::<i32>()
}

impl PerlinOctave {
    pub open spec fn spec_advance(self, index: i32, draw: i32) -> (PerlinOctave, OctaveSample) {
        if self.last_read == 0 {
            (
                PerlinOctave {
                    pvalue: self.value,
                    value: node_sign(draw),
                    last_read: (index * PERLIN_SPACING) as i32,
                },
                OctaveSample::Node(self.value),
            )
        } else {
            (
                PerlinOctave {
                    pvalue: self.pvalue,
                    value: self.value,
                    last_read: (self.last_read - 1) as i32,
                },
                OctaveSample::Between {
                    from: self.pvalue,
                    to: self.value,
                    remaining: (self.last_read - 1) as i32,
                    span: (index * PERLIN_SPACING + 1) as i32,
                },
            )
        }
    }

    /// An octave at a node, heading for +1 for a positive odd draw and −1
    /// otherwise.
    pub fn with_draw(draw: i32) -> (r: Self)
        ensures
            r.value == -node_sign(draw),
            r.pvalue == 0,
            r.last_read == 0,
    {
        PerlinOctave { value: -sign_from_draw(draw), pvalue: 0, last_read: 0 }
    }

    /// An octave at a node, heading for a random ±1.
    pub fn new_random() -> (r: Self)
        ensures
            r.value == 1 || r.value == -1,
            r.pvalue == 0,
            r.last_read == 0,
    {
        Self::with_draw(random_i32())
    }

    /// Advances the octave by one sample of octave number `index`, with
    /// `draw` deciding the sign of the next node when a node is reached.
    pub fn advance_with(&mut self, index: i32, draw: i32) -> (s: OctaveSample)
        requires
            0 <= index < OCTAVES,
            0 <= old(self).last_read,
        ensures
            (*final(self), s) == old(self).spec_advance(index, draw),
            0 <= final(self).last_read,
    {
        if self.last_read == 0 {
            self.pvalue = self.value;
            self.value = sign_from_draw(draw);
            self.last_read = index * PERLIN_SPACING;
            OctaveSample::Node(self.pvalue)
        } else {
            self.last_read = self.last_read - 1;
            OctaveSample::Between {
                from: self.pvalue,
                to: self.value,
                remaining: self.last_read,
                span: index * PERLIN_SPACING + 1,
            }
        }
    }

    /// Advances the octave by one sample of octave number `index`, drawing
    /// the sign of the next node at random when a node is reached.
    pub fn advance(&mut self, index: i32) -> (s: OctaveSample)
        requires
            0 <= index < OCTAVES,
            0 <= old(self).last_read,
        ensures
            exists|draw: i32| (*final(self), s) == #[trigger] old(self).spec_advance(index, draw),
            0 <= final(self).last_read,
    {
        let draw = random_i32();
        self.advance_with(index, draw)
    }
}

/// Between nodes an octave counts down; it reaches its next node after
/// `last_read` more samples, and a node of octave `index` is followed by
/// `index * PERLIN_SPACING` samples between nodes.
pub proof fn lemma_octave_countdown(o: PerlinOctave, index: i32, draw: i32)
    requires
        0 <= index < OCTAVES,
        0 <= o.last_read,
    ensures
        o.last_read > 0 ==> o.spec_advance(index, draw).0.last_read == o.last_read - 1
            && o.spec_advance(index, draw).0.value == o.value,
        o.last_read == 0 ==> o.spec_advance(index, draw).0.last_read == index * PERLIN_SPACING
            && o.spec_advance(index, draw).0.pvalue == o.value,
        o.spec_advance(index, draw).0.value == 1 || o.spec_advance(index, draw).0.value == -1
            || o.spec_advance(index, draw).0.value == o.value,
{
}

} // verus!
