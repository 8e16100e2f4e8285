use skyline_generator::binary32::milli_to_bits32;
use skyline_generator::builder::{build_mesh, BuildError, Cell, Layout};
use skyline_generator::codec::{parse_mesh, serialize_mesh};
use skyline_generator::model::model_bytes;

fn cell(week: u32, day: u32, count: u64) -> Cell {
    Cell { week, day, count, label: None }
}

#[test]
fn binary32_matches_ieee() {
    let cases: [i64; 12] = [
        0, 1000, -1000, 2500, 100, -100, 12500, 25000, 142500, 27500, 333, 1,
    ];
    for &n in cases.iter() {
        let expected = ((n as f64) / 1000.0) as f32;
        assert_eq!(milli_to_bits32(n), expected.to_bits(), "milli value {n}");
    }
    assert_eq!(milli_to_bits32(16_777_215_999), 16_777_215.999f32.to_bits());
    assert_eq!(milli_to_bits32(-16_777_215_999), (-16_777_215.999f32).to_bits());
}

#[test]
fn two_cell_scenario_heights_and_count() {
    let cells = vec![cell(0, 1, 5), cell(0, 2, 10)];
    let layout = Layout::default();
    let mesh = build_mesh(&cells, &layout).unwrap();
    assert_eq!(mesh.triangles.len(), 12 * 2 + 12 + 12);
    // The first cell's box: triangles 2 and 3 form its top face, at half of
    // the 25 mm peak, and the second cell's top face reaches the peak.
    assert_eq!(mesh.triangles[2].a.z, 12_500);
    assert_eq!(mesh.triangles[3].c.z, 12_500);
    assert_eq!(mesh.triangles[14].a.z, 25_000);
    // Day 1 renders at the back row: y0 = 2.5 + 6 * 2.5 = 17.5 mm.
    assert_eq!(mesh.triangles[0].a.x, 5_000);
    assert_eq!(mesh.triangles[0].a.y, 17_500);
    // Day 2 sits one row nearer the front.
    assert_eq!(mesh.triangles[12].a.y, 15_000);
    let bytes = serialize_mesh(&mesh);
    assert_eq!(bytes.len(), 84 + 50 * 48);
    assert_eq!(bytes.len(), 2484);
}

#[test]
fn empty_grid_keeps_plate_and_pedestal() {
    let cells: Vec<Cell> = vec![];
    let layout = Layout::default();
    let mesh = build_mesh(&cells, &layout).unwrap();
    assert_eq!(mesh.triangles.len(), 24);
    let bytes = serialize_mesh(&mesh);
    assert_eq!(bytes.len(), 84 + 50 * 24);
    assert_eq!(bytes.len(), 1284);
}

#[test]
fn all_zero_counts_stay_flat() {
    let cells = vec![cell(0, 1, 0), cell(1, 7, 0)];
    let layout = Layout::default();
    let mesh = build_mesh(&cells, &layout).unwrap();
    assert_eq!(mesh.triangles.len(), 48);
    // Top faces of both boxes sit at z = 0.
    assert_eq!(mesh.triangles[2].a.z, 0);
    assert_eq!(mesh.triangles[14].a.z, 0);
}

#[test]
fn tallest_cell_reaches_max_height() {
    let cells = vec![cell(0, 1, 3), cell(1, 2, 7), cell(2, 3, 21)];
    let layout = Layout::default();
    let mesh = build_mesh(&cells, &layout).unwrap();
    // Heights are floor(count * 25000 / 21) milli-units.
    assert_eq!(mesh.triangles[2].a.z, 3 * 25_000 / 21);
    assert_eq!(mesh.triangles[14].a.z, 7 * 25_000 / 21);
    assert_eq!(mesh.triangles[26].a.z, 25_000);
}

#[test]
fn day_out_of_range_is_rejected() {
    let layout = Layout::default();
    let high = vec![cell(0, 1, 5), cell(3, 8, 2)];
    match build_mesh(&high, &layout) {
        Err(BuildError::OutOfRangeCell { week, day }) => {
            assert_eq!((week, day), (3, 8));
        }
        other => panic!("expected OutOfRangeCell, got {other:?}"),
    }
    let low = vec![cell(2, 0, 1)];
    match build_mesh(&low, &layout) {
        Err(BuildError::OutOfRangeCell { week, day }) => {
            assert_eq!((week, day), (2, 0));
        }
        other => panic!("expected OutOfRangeCell, got {other:?}"),
    }
    // No bytes are produced for a rejected grid.
    assert!(model_bytes(&high, &layout).is_err());
}

#[test]
fn week_out_of_range_is_rejected() {
    let layout = Layout::default();
    let cells = vec![cell(53, 4, 1)];
    match build_mesh(&cells, &layout) {
        Err(BuildError::OutOfRangeWeek { week, day }) => {
            assert_eq!((week, day), (53, 4));
        }
        other => panic!("expected OutOfRangeWeek, got {other:?}"),
    }
}

#[test]
fn serialized_bytes_round_trip() {
    let cells = vec![cell(0, 1, 5), cell(0, 2, 10)];
    let layout = Layout::default();
    let mesh = build_mesh(&cells, &layout).unwrap();
    let bytes = serialize_mesh(&mesh);
    let (count, words) = parse_mesh(&bytes).unwrap();
    assert_eq!(count, 48);
    assert_eq!(words.len(), 12 * 48);
    // First record: the bottom face normal (0, 0, -1).
    assert_eq!(words[0], 0f32.to_bits());
    assert_eq!(words[1], 0f32.to_bits());
    assert_eq!(words[2], (-1.0f32).to_bits());
    // Its first vertex: (5.0, 17.5, 0.0).
    assert_eq!(words[3], 5.0f32.to_bits());
    assert_eq!(words[4], 17.5f32.to_bits());
    assert_eq!(words[5], 0f32.to_bits());
    // Every stored word is the encoding of the source coordinate.
    for (p, t) in mesh.triangles.iter().enumerate() {
        let coords = [
            t.normal.x, t.normal.y, t.normal.z, t.a.x, t.a.y, t.a.z, t.b.x, t.b.y, t.b.z, t.c.x,
            t.c.y, t.c.z,
        ];
        for (j, &c) in coords.iter().enumerate() {
            assert_eq!(words[12 * p + j], milli_to_bits32(c));
        }
    }
}

#[test]
fn parse_rejects_wrong_length() {
    let cells: Vec<Cell> = vec![];
    let layout = Layout::default();
    let mesh = build_mesh(&cells, &layout).unwrap();
    let mut bytes = serialize_mesh(&mesh);
    bytes.push(0);
    assert!(parse_mesh(&bytes).is_none());
    assert!(parse_mesh(&vec![0u8; 60]).is_none());
}

#[test]
fn stl_io_reads_the_output_back() {
    let cells = vec![cell(0, 1, 5), cell(0, 2, 10)];
    let layout = Layout::default();
    let bytes = model_bytes(&cells, &layout).unwrap();
    assert_eq!(bytes.len(), 2484);
    let mut cursor = std::io::Cursor::new(bytes);
    let reader = stl_io::create_stl_reader(&mut cursor).unwrap();
    let tris: Vec<stl_io::Triangle> = reader.map(|t| t.unwrap()).collect();
    assert_eq!(tris.len(), 48);
    // First triangle of the first cell: bottom face at z = 0 with its
    // normal pointing down, footprint starting at (5.0, 17.5).
    assert_eq!(tris[0].normal, stl_io::Normal::new([0.0, 0.0, -1.0]));
    assert_eq!(tris[0].vertices[0], stl_io::Vertex::new([5.0, 17.5, 0.0]));
    assert_eq!(tris[0].vertices[1], stl_io::Vertex::new([7.5, 20.0, 0.0]));
    assert_eq!(tris[0].vertices[2], stl_io::Vertex::new([7.5, 17.5, 0.0]));
    // Normalized heights: 12.5 for count 5, 25.0 for count 10.
    assert_eq!(tris[2].vertices[0][2], 12.5);
    assert_eq!(tris[14].vertices[0][2], 25.0);
    // The plate follows the cells, then the pedestal's flared bottom.
    assert_eq!(tris[24].vertices[0], stl_io::Vertex::new([0.0, 0.0, 0.0]));
    assert_eq!(tris[24].vertices[1], stl_io::Vertex::new([142.5, 0.0, 0.0]));
    assert_eq!(tris[38].vertices[0], stl_io::Vertex::new([-2.5, -2.5, -10.1]));
}

#[test]
fn default_layout_dimensions() {
    let layout = Layout::default();
    assert_eq!(layout.cell_width, 2_500);
    assert_eq!(layout.cell_depth, 2_500);
    assert_eq!(layout.base_width, 142_500);
    assert_eq!(layout.base_depth, 27_500);
    assert_eq!(layout.base_thickness, 100);
    assert_eq!(layout.max_height, 25_000);
    assert_eq!(layout.pedestal_height, 10_000);
    assert_eq!(layout.pedestal_flare, 2_500);
    assert_eq!(layout.margin_x, 5_000);
    assert_eq!(layout.margin_y, 2_500);
}

#[test]
fn windings_follow_normals_on_boxes_and_plate() {
    // For every cell-box and plate triangle, the cross product of the
    // edges is a positive multiple of the stated axis-aligned normal.
    let cells = vec![cell(0, 1, 5), cell(1, 2, 10)];
    let layout = Layout::default();
    let mesh = build_mesh(&cells, &layout).unwrap();
    for t in mesh.triangles[..36].iter() {
        let e1 = (t.b.x - t.a.x, t.b.y - t.a.y, t.b.z - t.a.z);
        let e2 = (t.c.x - t.a.x, t.c.y - t.a.y, t.c.z - t.a.z);
        let cross = (
            e1.1 * e2.2 - e1.2 * e2.1,
            e1.2 * e2.0 - e1.0 * e2.2,
            e1.0 * e2.1 - e1.1 * e2.0,
        );
        // Parallel to the normal...
        assert_eq!(cross.0 * t.normal.y, cross.1 * t.normal.x);
        assert_eq!(cross.1 * t.normal.z, cross.2 * t.normal.y);
        assert_eq!(cross.0 * t.normal.z, cross.2 * t.normal.x);
        // ... and pointing the same way.
        assert!(cross.0 * t.normal.x + cross.1 * t.normal.y + cross.2 * t.normal.z > 0);
    }
    // The pedestal's top and bottom faces (records 36, 37, 38, 39) follow
    // their vertical normals too.
    for t in mesh.triangles[36..40].iter() {
        let e1 = (t.b.x - t.a.x, t.b.y - t.a.y, t.b.z - t.a.z);
        let e2 = (t.c.x - t.a.x, t.c.y - t.a.y, t.c.z - t.a.z);
        let cross_z = e1.0 * e2.1 - e1.1 * e2.0;
        assert!(cross_z * t.normal.z > 0);
    }
}
