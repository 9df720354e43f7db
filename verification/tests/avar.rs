use allsorts::binary::{F2Dot14, ReadScope};
use allsorts::error::ParseError;
use allsorts::tables::variable_fonts::avar::{AvarTable, AxisValueMap};

/// The 2.14 number nearest to `value`.
fn f2dot14(value: f32) -> F2Dot14 {
    F2Dot14::from_raw((value * 16384.0).round() as i16)
}

fn map(from: f32, to: f32) -> AxisValueMap {
    AxisValueMap { from_coordinate: f2dot14(from), to_coordinate: f2dot14(to) }
}

fn expected_segment_maps() -> Vec<Vec<AxisValueMap>> {
    vec![
        vec![
            map(-1.0, -1.0),
            map(-0.6667, -0.7969),
            map(-0.3333, -0.5),
            map(0.0, 0.0),
            map(0.2, 0.18),
            map(0.4, 0.38),
            map(0.6, 0.61),
            map(0.8, 0.79),
            map(1.0, 1.0),
        ],
        vec![
            map(-1.0, -1.0),
            map(-0.6667, -0.7),
            map(-0.3333, -0.36664),
            map(0.0, 0.0),
            map(1.0, 1.0),
        ],
        vec![map(-1.0, -1.0), map(0.0, 0.0), map(1.0, 1.0)],
    ]
}

/// An `avar` table of three axes, as it stands in a font file.
const AVAR_DATA: [u8; 82] = [
    // Version 1.0, a reserved field, three axes.
    0x00, 0x01, 0x00, 0x00, 0x00, 0x00, 0x00, 0x03,
    // Axis 0: 9 pairs.
    0x00, 0x09,
    0xC0, 0x00, 0xC0, 0x00,
    0xD5, 0x55, 0xCD, 0x00,
    0xEA, 0xAB, 0xE0, 0x00,
    0x00, 0x00, 0x00, 0x00,
    0x0C, 0xCD, 0x0B, 0x85,
    0x19, 0x9A, 0x18, 0x52,
    0x26, 0x66, 0x27, 0x0A,
    0x33, 0x33, 0x32, 0x8F,
    0x40, 0x00, 0x40, 0x00,
    // Axis 1: 5 pairs.
    0x00, 0x05,
    0xC0, 0x00, 0xC0, 0x00,
    0xD5, 0x55, 0xD3, 0x33,
    0xEA, 0xAB, 0xE8, 0x89,
    0x00, 0x00, 0x00, 0x00,
    0x40, 0x00, 0x40, 0x00,
    // Axis 2: 3 pairs.
    0x00, 0x03,
    0xC0, 0x00, 0xC0, 0x00,
    0x00, 0x00, 0x00, 0x00,
    0x40, 0x00, 0x40, 0x00,
];

/// The table of a font with the given segment maps.
fn avar_table(segment_maps: &[Vec<AxisValueMap>]) -> Vec<u8> {
    let mut data = vec![0x00, 0x01, 0x00, 0x00, 0x00, 0x00];
    data.extend_from_slice(&(segment_maps.len() as u16).to_be_bytes());
    for segment_map in segment_maps {
        data.extend_from_slice(&(segment_map.len() as u16).to_be_bytes());
        for map in segment_map {
            data.extend_from_slice(&map.from_coordinate.raw_value().to_be_bytes());
            data.extend_from_slice(&map.to_coordinate.raw_value().to_be_bytes());
        }
    }
    data
}

#[test]
fn avar() {
    let avar_data = AVAR_DATA;
    let avar = AvarTable::read(&mut ReadScope::new(&avar_data).ctxt()).unwrap();

    let segment_maps = avar
        .segment_maps()
        .iter()
        .map(|segment_map| segment_map.axis_value_mappings())
        .collect::<Vec<_>>();
    let expected = expected_segment_maps();
    assert_eq!(segment_maps, expected);
}

#[test]
fn avar_header() {
    let data = AVAR_DATA;
    let mut ctxt = ReadScope::new(&data).ctxt();
    let avar = AvarTable::read(&mut ctxt).unwrap();
    assert_eq!(ctxt.offset(), data.len());
    assert_eq!((avar.major_version, avar.minor_version, avar.axis_count), (1, 0, 3));
    assert_eq!(f2dot14(-0.6667), F2Dot14(-10923));
    assert_eq!(f2dot14(1.0).raw_value(), 0x4000);
    // The second pair of the first axis, as it was read.
    let second = avar.segment_maps()[0].axis_value_mappings()[1];
    assert_eq!(second.from_coordinate.raw_value(), -10923);
    assert_eq!(second.to_coordinate.raw_value(), -13056);
    // Writing the same maps out gives the same bytes.
    assert_eq!(avar_table(&expected_segment_maps()), AVAR_DATA.to_vec());
}

#[test]
fn avar_errors() {
    let data = avar_table(&expected_segment_maps());
    let mut version_2 = data.clone();
    version_2[1] = 2;
    assert_eq!(
        AvarTable::read(&mut ReadScope::new(&version_2).ctxt()).err(),
        Some(ParseError::BadVersion)
    );
    for cut in [0, 1, 7, 9, data.len() - 1] {
        assert_eq!(
            AvarTable::read(&mut ReadScope::new(&data[..cut]).ctxt()).err(),
            Some(ParseError::BadEof)
        );
    }
    // A table without axes has no segment maps.
    let empty = avar_table(&[]);
    let avar = AvarTable::read(&mut ReadScope::new(&empty).ctxt()).unwrap();
    assert!(avar.segment_maps().is_empty());
}

#[test]
fn axis_value_map_from_pair() {
    assert_eq!(
        AxisValueMap::from((F2Dot14(1), F2Dot14(-2))),
        AxisValueMap { from_coordinate: F2Dot14(1), to_coordinate: F2Dot14(-2) }
    );
}
