use allsorts::binary::F2Dot14;
use allsorts::loca;
use allsorts::outline::{
    outline, outline_impl, outline_operations, parse_glyph_outline, parse_simple_outline,
    read_components, Component, ComponentTransform, ContourState, GlyphPoint, Operation,
    OutlineBoundingRect, OutlineParseError, MAX_COMPONENTS,
};

fn point(x: i16, y: i16, on_curve_point: bool, last_point: bool) -> GlyphPoint {
    GlyphPoint { x, y, on_curve_point, last_point }
}

fn header(contours: i16, rect: (i16, i16, i16, i16)) -> Vec<u8> {
    let mut data = Vec::new();
    for v in [contours, rect.0, rect.1, rect.2, rect.3] {
        data.extend_from_slice(&v.to_be_bytes());
    }
    data
}

/// A triangle with the corners (0, 0), (100, 0) and (50, 100).
fn triangle_tail() -> Vec<u8> {
    vec![
        0x00, 0x02, // the contour ends with point 2
        0x00, 0x00, // no instructions
        0x31, 0x33, 0x27, // flags
        100, 50,  // x: +100, -50
        100, // y: +100
    ]
}

fn triangle() -> Vec<u8> {
    let mut data = header(1, (0, 0, 100, 100));
    data.extend(triangle_tail());
    data
}

fn triangle_operations() -> Vec<Operation> {
    vec![
        Operation::MoveTo { x: 0, y: 0 },
        Operation::LineTo { x: 200, y: 0 },
        Operation::LineTo { x: 100, y: 200 },
        Operation::LineTo { x: 0, y: 0 },
        Operation::ClosePath,
    ]
}

#[test]
fn simple_glyph_points() {
    let points = parse_simple_outline(&triangle_tail(), 1).unwrap().points();
    assert_eq!(
        points,
        vec![point(0, 0, true, false), point(100, 0, true, false), point(50, 100, true, true)]
    );
}

#[test]
fn simple_glyph_points_one_by_one() {
    let mut points = parse_simple_outline(&triangle_tail(), 1).unwrap();
    assert_eq!(points.next(), Some(point(0, 0, true, false)));
    assert_eq!(points.points().len(), 2);
    assert_eq!(points.next(), Some(point(100, 0, true, false)));
    assert_eq!(points.next(), Some(point(50, 100, true, true)));
    assert_eq!(points.next(), None);
    assert_eq!(points.next(), None);
    assert!(points.points().is_empty());
}

#[test]
fn simple_glyph_with_long_coordinates_repeats_and_instructions() {
    let tail = vec![
        0x00, 0x01, 0x00, 0x03, // two contours, ending with the points 1 and 3
        0x00, 0x02, 0xAA, 0xBB, // two bytes of instructions
        0x09, 0x02, // a point on the curve with long coordinates, three times
        0x36, // a control point with short positive coordinates
        0x01, 0x00, 0xFF, 0x00, 0x80, 0x00, 7, // x: +256, -256, -32768, +7
        0x00, 0x01, 0x00, 0x02, 0x00, 0x03, 9, // y: +1, +2, +3, +9
    ];
    let points = parse_simple_outline(&tail, 2).unwrap().points();
    assert_eq!(
        points,
        vec![
            point(256, 1, true, false),
            point(0, 3, true, true),
            point(-32768, 6, true, false),
            point(-32761, 15, false, true),
        ]
    );
    // The data may be longer than what is read.
    let mut longer = tail.clone();
    longer.push(0);
    assert_eq!(parse_simple_outline(&longer, 2).unwrap().points(), points);
    // It may not be shorter.
    for cut in 0..tail.len() {
        assert!(parse_simple_outline(&tail[..cut], 2).is_none());
    }
}

#[test]
fn simple_glyph_edge_cases() {
    // No contours.
    assert!(parse_simple_outline(&triangle_tail(), 0).is_none());
    // A glyph of a single point has no points.
    let single = [0x00, 0x00];
    assert!(parse_simple_outline(&single, 1).unwrap().points().is_empty());
    // The number of points must be a 16-bit number.
    let many = [0xFF, 0xFF, 0x00, 0x00];
    assert!(parse_simple_outline(&many, 1).is_none());
    // More repeats than points are left.
    let repeats = [0x00, 0x01, 0x00, 0x00, 0x39, 0x02];
    assert!(parse_simple_outline(&repeats, 1).is_none());
    let repeats = [0x00, 0x01, 0x00, 0x00, 0x39, 0x01];
    assert_eq!(
        parse_simple_outline(&repeats, 1).unwrap().points(),
        vec![point(0, 0, true, false), point(0, 0, true, true)]
    );
    // A coordinate beyond 16 bits.
    let far = [0x00, 0x01, 0x00, 0x00, 0x21, 0x21, 0x7F, 0xFF, 0x00, 0x01];
    assert!(parse_simple_outline(&far, 1).is_none());
    let near = [0x00, 0x01, 0x00, 0x00, 0x21, 0x21, 0x7F, 0xFE, 0x00, 0x01];
    assert_eq!(
        parse_simple_outline(&near, 1).unwrap().points(),
        vec![point(32766, 0, true, false), point(32767, 0, true, true)]
    );
}

#[test]
fn contours_of_lines() {
    let points =
        [point(0, 0, true, false), point(100, 0, true, false), point(50, 100, true, true)];
    assert_eq!(outline_operations(&points), triangle_operations());
    assert_eq!(outline_operations(&[]), Vec::<Operation>::new());
    assert_eq!(ContourState::start().first_on_curve, None);
}

#[test]
fn contours_of_curves() {
    // Two control points in a row imply a point half-way between them.
    let points = [
        point(0, 0, true, false),
        point(10, 0, false, false),
        point(11, 10, false, false),
        point(0, 10, true, true),
    ];
    assert_eq!(
        outline_operations(&points),
        vec![
            Operation::MoveTo { x: 0, y: 0 },
            Operation::QuadraticCurveTo { x1: 20, y1: 0, x: 21, y: 10 },
            Operation::QuadraticCurveTo { x1: 22, y1: 20, x: 0, y: 20 },
            Operation::LineTo { x: 0, y: 0 },
            Operation::ClosePath,
        ]
    );
    // A contour that ends with a control point curves back to its start.
    let points = [point(0, 0, true, false), point(10, 0, true, false), point(5, 8, false, true)];
    assert_eq!(
        outline_operations(&points),
        vec![
            Operation::MoveTo { x: 0, y: 0 },
            Operation::LineTo { x: 20, y: 0 },
            Operation::QuadraticCurveTo { x1: 10, y1: 16, x: 0, y: 0 },
            Operation::ClosePath,
        ]
    );
    // A contour that starts with a control point starts at its first point on the curve.
    let points = [point(5, 8, false, false), point(0, 0, true, false), point(10, 0, true, true)];
    assert_eq!(
        outline_operations(&points),
        vec![
            Operation::MoveTo { x: 0, y: 0 },
            Operation::LineTo { x: 20, y: 0 },
            Operation::QuadraticCurveTo { x1: 10, y1: 16, x: 0, y: 0 },
            Operation::ClosePath,
        ]
    );
    // A contour of control points alone starts half-way between the first two.
    let points = [
        point(0, 0, false, false),
        point(10, 0, false, false),
        point(10, 10, false, false),
        point(1, 11, false, true),
    ];
    assert_eq!(
        outline_operations(&points),
        vec![
            Operation::MoveTo { x: 10, y: 0 },
            Operation::QuadraticCurveTo { x1: 20, y1: 0, x: 20, y: 10 },
            Operation::QuadraticCurveTo { x1: 20, y1: 20, x: 11, y: 21 },
            Operation::QuadraticCurveTo { x1: 2, y1: 22, x: 1, y: 11 },
            Operation::QuadraticCurveTo { x1: 0, y1: 0, x: 10, y: 0 },
            Operation::ClosePath,
        ]
    );
}

#[test]
fn two_contours() {
    let points = [
        point(0, 0, true, false),
        point(1, 0, true, true),
        point(5, 5, true, true),
    ];
    assert_eq!(
        outline_operations(&points),
        vec![
            Operation::MoveTo { x: 0, y: 0 },
            Operation::LineTo { x: 2, y: 0 },
            Operation::LineTo { x: 0, y: 0 },
            Operation::ClosePath,
            Operation::MoveTo { x: 10, y: 10 },
            Operation::LineTo { x: 10, y: 10 },
            Operation::ClosePath,
        ]
    );
}

fn moved(e: i16, f: i16) -> ComponentTransform {
    ComponentTransform {
        a: F2Dot14(0x4000),
        b: F2Dot14(0),
        c: F2Dot14(0),
        d: F2Dot14(0x4000),
        e,
        f,
    }
}

fn composite_tail() -> Vec<u8> {
    vec![
        0x00, 0x22, 0x00, 0x00, 5, 0xFD, // glyph 0, moved by (5, -3); more follow
        0x00, 0x0B, 0x00, 0x00, 0x00, 0x0A, 0x00, 0x14, 0x20, 0x00, // glyph 0, moved and halved
    ]
}

#[test]
fn components() {
    let halved = ComponentTransform { a: F2Dot14(0x2000), d: F2Dot14(0x2000), ..moved(10, 20) };
    assert_eq!(
        read_components(&composite_tail(), 0),
        Some(vec![
            Component { glyph_id: 0, flags: 0x22, transform: moved(5, -3) },
            Component { glyph_id: 0, flags: 0x0B, transform: halved },
        ])
    );
    // The second component alone.
    assert_eq!(read_components(&composite_tail(), 6).unwrap().len(), 1);
    // A scale for each direction, a two by two transformation, and points to match.
    let data = [
        0x00, 0x60, 0x00, 0x07, 1, 2, 0x10, 0x00, 0x30, 0x00, // x and y scale, no offset
        0x00, 0x83, 0x00, 0x08, 0xFF, 0xFF, 0x00, 0x01, // offset (-1, 1),
        0x00, 0x01, 0x00, 0x02, 0x00, 0x03, 0x00, 0x04, // two by two
    ];
    assert_eq!(
        read_components(&data, 0),
        Some(vec![
            Component {
                glyph_id: 7,
                flags: 0x60,
                transform: ComponentTransform {
                    a: F2Dot14(0x1000),
                    d: F2Dot14(0x3000),
                    ..moved(0, 0)
                },
            },
            Component {
                glyph_id: 8,
                flags: 0x83,
                transform: ComponentTransform {
                    a: F2Dot14(1),
                    b: F2Dot14(2),
                    c: F2Dot14(3),
                    d: F2Dot14(4),
                    e: -1,
                    f: 1,
                },
            },
        ])
    );
    for cut in 0..data.len() {
        assert_eq!(read_components(&data[..cut], 0), None);
    }
}

fn font() -> (loca::Table, Vec<u8>) {
    let mut glyf = triangle();
    let mut offsets = vec![0u32, glyf.len() as u32];
    // Glyph 1 is made of two triangles.
    glyf.extend(header(-1, (0, -3, 105, 100)));
    glyf.extend(composite_tail());
    offsets.push(glyf.len() as u32);
    // Glyph 2 has no data, and glyph 3 has no contours.
    offsets.push(glyf.len() as u32);
    glyf.extend(header(0, (0, 0, 0, 0)));
    offsets.push(glyf.len() as u32);
    // Glyph 4 is made of glyph 1, of a glyph that is not there and of glyph 2.
    glyf.extend(header(-1, (1, 2, 3, 4)));
    glyf.extend([0x00, 0x22, 0x00, 0x01, 0, 0]);
    glyf.extend([0x00, 0x22, 0x00, 0x63, 0, 0]);
    glyf.extend([0x00, 0x02, 0x00, 0x02, 1, 1]);
    offsets.push(glyf.len() as u32);
    // Glyph 5 is made of itself.
    glyf.extend(header(-1, (0, 0, 0, 0)));
    glyf.extend([0x00, 0x02, 0x00, 0x05, 0, 0]);
    offsets.push(glyf.len() as u32);
    // Glyph 6 is made of the glyph without contours.
    glyf.extend(header(-1, (0, 0, 0, 0)));
    glyf.extend([0x00, 0x02, 0x00, 0x03, 0, 0]);
    offsets.push(glyf.len() as u32);
    (loca::Table { offsets }, glyf)
}

fn two_triangles() -> Vec<Operation> {
    let halved = ComponentTransform { a: F2Dot14(0x2000), d: F2Dot14(0x2000), ..moved(10, 20) };
    let mut operations = vec![Operation::Component { transform: moved(5, -3) }];
    operations.extend(triangle_operations());
    operations.push(Operation::EndComponent);
    operations.push(Operation::Component { transform: halved });
    operations.extend(triangle_operations());
    operations.push(Operation::EndComponent);
    operations
}

#[test]
fn outline_of_a_simple_glyph() {
    let (loca_table, glyf) = font();
    let outline = outline(&loca_table, &glyf, 0).unwrap();
    assert_eq!(outline.operations, triangle_operations());
    assert_eq!(
        outline.bounding_rect,
        OutlineBoundingRect { min_x: 0, min_y: 0, max_x: 100, max_y: 100 }
    );
}

#[test]
fn outline_of_a_composite_glyph() {
    let (loca_table, glyf) = font();
    let outline1 = outline(&loca_table, &glyf, 1).unwrap();
    assert_eq!(outline1.operations, two_triangles());
    assert_eq!(
        outline1.bounding_rect,
        OutlineBoundingRect { min_x: 0, min_y: -3, max_x: 105, max_y: 100 }
    );

    // Components nest, and those that are not there are left out.
    let outline4 = outline(&loca_table, &glyf, 4).unwrap();
    let mut expected = vec![Operation::Component { transform: moved(0, 0) }];
    expected.extend(two_triangles());
    expected.push(Operation::EndComponent);
    assert_eq!(outline4.operations, expected);
    assert_eq!(outline4.bounding_rect.min_x, 1);
}

#[test]
fn glyphs_without_outline() {
    let (loca_table, glyf) = font();
    // No data, no contours, and no such glyph.
    assert!(outline(&loca_table, &glyf, 2).is_none());
    assert!(outline(&loca_table, &glyf, 3).is_none());
    assert!(outline(&loca_table, &glyf, 7).is_none());
    assert!(outline(&loca_table, &glyf, 0xFFFF).is_none());
    // A glyph that is made of itself, and one that is made of a glyph without contours.
    assert!(outline(&loca_table, &glyf, 5).is_none());
    assert!(outline(&loca_table, &glyf, 6).is_none());
    // The table ends within the glyph.
    assert!(outline(&loca_table, &glyf[..10], 0).is_none());
    assert_eq!(loca_table.glyph_range(0), Some((0, 20)));
    assert_eq!(loca_table.glyph_range(2), None);
}

#[test]
fn outline_appends_at_any_depth_below_the_limit() {
    let (loca_table, glyf) = font();
    let mut operations = vec![Operation::ClosePath];
    let rect = outline_impl(&loca_table, &glyf, &triangle(), MAX_COMPONENTS - 1, &mut operations);
    assert_eq!(rect, Some(OutlineBoundingRect { min_x: 0, min_y: 0, max_x: 100, max_y: 100 }));
    assert_eq!(operations.len(), 6);
    assert_eq!(operations[0], Operation::ClosePath);
    assert_eq!(outline_impl(&loca_table, &glyf, &triangle(), MAX_COMPONENTS, &mut operations), None);
    assert_eq!(outline_impl(&loca_table, &glyf, &triangle()[..9], 0, &mut operations), None);
    assert_eq!(MAX_COMPONENTS, 32);
}

#[test]
fn glyph_outline_needs_the_tables() {
    let (loca_table, glyf) = font();
    assert_eq!(
        parse_glyph_outline(None, Some(&glyf[..]), 0).err(),
        Some(OutlineParseError::NoTablesFound)
    );
    assert_eq!(
        parse_glyph_outline(Some(&loca_table), None, 0).err(),
        Some(OutlineParseError::NoTablesFound)
    );
    let found = parse_glyph_outline(Some(&loca_table), Some(&glyf[..]), 0).unwrap().unwrap();
    assert_eq!(found.operations, triangle_operations());
    assert_eq!(parse_glyph_outline(Some(&loca_table), Some(&glyf[..]), 3), Ok(None));
}
