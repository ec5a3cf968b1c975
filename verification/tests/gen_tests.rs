use noise::flags::Border;
use noise::gen::{pagoda_platform_layout, sign_from_draw, OctaveSample, PagodaTile, PerlinOctave, TileEdge, GhostTileType};

fn t(column: i64, row: i64, roof: bool, edge: TileEdge) -> PagodaTile {
    PagodaTile { column, row, roof, edge }
}

#[test]
fn pagoda_layout_with_both_borders() {
    let ts = pagoda_platform_layout(Border::all(), 1);
    assert_eq!(
        ts,
        vec![
            t(0, 0, false, TileEdge::Left),
            t(-1, -1, true, TileEdge::Left),
            t(0, -1, true, TileEdge::Center),
            t(1, 0, false, TileEdge::Center),
            t(1, -1, true, TileEdge::Center),
            t(2, 0, false, TileEdge::Right),
            t(2, -1, true, TileEdge::Center),
            t(3, -1, true, TileEdge::Right),
        ]
    );
}

#[test]
fn pagoda_layout_without_borders() {
    let ts = pagoda_platform_layout(Border::none(), 0);
    assert_eq!(
        ts,
        vec![
            t(0, 0, false, TileEdge::Center),
            t(-1, -1, true, TileEdge::Center),
            t(0, -1, true, TileEdge::Center),
            t(1, -1, true, TileEdge::Center),
        ]
    );
}

#[test]
fn pagoda_tile_types() {
    assert!(matches!(t(0, 0, false, TileEdge::Left).tile_type(), GhostTileType::PagodaBack(TileEdge::Left)));
    assert!(matches!(t(0, -1, true, TileEdge::Right).tile_type(), GhostTileType::PagodaRoof(TileEdge::Right)));
}

#[test]
fn node_signs() {
    assert_eq!(sign_from_draw(3), -1);
    assert_eq!(sign_from_draw(4), 1);
    assert_eq!(sign_from_draw(-3), 1);
    assert_eq!(sign_from_draw(0), 1);
    assert_eq!(PerlinOctave::with_draw(3).value, 1);
    assert_eq!(PerlinOctave::with_draw(2).value, -1);
}

#[test]
fn octave_counts_down_between_nodes() {
    let mut o = PerlinOctave { pvalue: 0, value: 1, last_read: 0 };
    assert_eq!(o.advance_with(2, 5), OctaveSample::Node(1));
    assert_eq!(o, PerlinOctave { pvalue: 1, value: -1, last_read: 32 });
    assert_eq!(o.advance_with(2, 5), OctaveSample::Between { from: 1, to: -1, remaining: 31, span: 33 });
    assert_eq!(o.last_read, 31);
}

#[test]
fn octave_zero_is_always_at_a_node() {
    let mut o = PerlinOctave::new_random();
    assert!(o.value == 1 || o.value == -1);
    for _ in 0..4 {
        let v = o.value;
        assert_eq!(o.advance(0), OctaveSample::Node(v));
        assert!(o.value == 1 || o.value == -1);
    }
}
