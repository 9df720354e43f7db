use allsorts::binary::{F2Dot14, ReadArray, ReadScope};
use allsorts::error::ParseError;
use allsorts::tables::variable_fonts::gvar::{GvarTable, NumPoints};
use allsorts::tables::variable_fonts::{
    read_count, read_packed_deltas, read_packed_point_numbers, AxisScalar, Cvar,
    DeltaSetIndexMap, DeltaSetIndexMapEntry, Gvar, ItemVariationData, ItemVariationStore,
    LongDeltaSet, PointNumbers, RegionAxisCoordinates, RegularDeltaSet, SharedPointNumbers,
    TupleVariationHeader, TupleVariationStore, UserTuple, VariationRegion,
};

#[test]
fn test_read_count() {
    let mut ctxt = ReadScope::new(&[0]).ctxt();
    assert_eq!(read_count(&mut ctxt).unwrap(), 0);
    let mut ctxt = ReadScope::new(&[0x32]).ctxt();
    assert_eq!(read_count(&mut ctxt).unwrap(), 50);
    let mut ctxt = ReadScope::new(&[0x81, 0x22]).ctxt();
    assert_eq!(read_count(&mut ctxt).unwrap(), 290);
}

#[test]
fn test_read_packed_point_numbers() {
    let data = [0x0d, 0x0c, 1, 4, 4, 2, 1, 2, 3, 3, 2, 1, 1, 3, 4];
    let mut ctxt = ReadScope::new(&data).ctxt();

    let expected = vec![1, 5, 9, 11, 12, 14, 17, 20, 22, 23, 24, 27, 31];
    assert_eq!(
        read_packed_point_numbers(&mut ctxt, expected.len() as u32)
            .unwrap()
            .iter()
            .into_iter()
            .collect::<Vec<_>>(),
        expected
    );
}

#[test]
fn test_read_packed_deltas() {
    let data = [
        0x03, 0x0A, 0x97, 0x00, 0xC6, 0x87, 0x41, 0x10, 0x22, 0xFB, 0x34,
    ];
    let mut ctxt = ReadScope::new(&data).ctxt();
    let expected = vec![10, -105, 0, -58, 0, 0, 0, 0, 0, 0, 0, 0, 4130, -1228];
    assert_eq!(
        read_packed_deltas(&mut ctxt, expected.len() as u32).unwrap(),
        expected
    );
}

#[test]
fn count_consumes_one_or_two_bytes() {
    let data = [0x7F, 0xFF, 0xFF];
    let mut ctxt = ReadScope::new(&data).ctxt();
    assert_eq!(read_count(&mut ctxt).unwrap(), 127);
    assert_eq!(ctxt.offset(), 1);
    assert_eq!(read_count(&mut ctxt).unwrap(), 0x7FFF);
    assert_eq!(ctxt.offset(), 3);
    assert_eq!(read_count(&mut ctxt), Err(ParseError::BadEof));
    let mut ctxt = ReadScope::new(&[0x80]).ctxt();
    assert_eq!(read_count(&mut ctxt), Err(ParseError::BadEof));
}

#[test]
fn packed_points_consume_exactly_what_they_need() {
    let mut data = vec![0x0d, 0x0c, 1, 4, 4, 2, 1, 2, 3, 3, 2, 1, 1, 3, 4];
    // Every shorter stream ends within the run.
    for cut in 0..data.len() {
        let mut ctxt = ReadScope::new(&data[..cut]).ctxt();
        assert_eq!(read_packed_point_numbers(&mut ctxt, 32), Err(ParseError::BadEof));
    }
    // What follows is left alone.
    data.extend_from_slice(&[0xAA, 0xBB]);
    let mut ctxt = ReadScope::new(&data).ctxt();
    let points = read_packed_point_numbers(&mut ctxt, 32).unwrap();
    assert_eq!(points.len(), 13);
    assert_eq!(ctxt.offset(), 15);
}

#[test]
fn packed_points_all_and_words() {
    let mut ctxt = ReadScope::new(&[0]).ctxt();
    let all = read_packed_point_numbers(&mut ctxt, 5).unwrap();
    assert_eq!(all, PointNumbers::All(5));
    assert_eq!(all.len(), 5);
    assert_eq!(all.iter(), vec![0, 1, 2, 3, 4]);
    assert_eq!(all.get(3), 3);

    // Three points in a run of words, then one in a run of bytes.
    let data = [4, 0x82, 0x01, 0x00, 0x00, 0x01, 0x10, 0x00, 0x00, 0x05];
    let mut ctxt = ReadScope::new(&data).ctxt();
    let points = read_packed_point_numbers(&mut ctxt, 0).unwrap();
    assert_eq!(points, PointNumbers::Specific(vec![0x100, 0x101, 0x1101, 0x1106]));
    assert_eq!(ctxt.offset(), data.len());
}

#[test]
fn packed_points_run_beyond_the_count_is_a_bad_value() {
    // The count is 1, the run holds 2.
    let data = [1, 0x01, 7, 1];
    let mut ctxt = ReadScope::new(&data).ctxt();
    assert_eq!(read_packed_point_numbers(&mut ctxt, 0), Err(ParseError::BadValue));
    // The count is 1, the second run would bring a second number.
    let data = [1, 0x01, 5, 6];
    let mut ctxt = ReadScope::new(&data).ctxt();
    assert_eq!(read_packed_point_numbers(&mut ctxt, 0), Err(ParseError::BadValue));
    // The long run is refused before its data is looked for.
    let data = [1, 0x01];
    let mut ctxt = ReadScope::new(&data).ctxt();
    assert_eq!(read_packed_point_numbers(&mut ctxt, 0), Err(ParseError::BadValue));
    // Two runs that hold the count between them.
    let data = [3, 0x01, 7, 1, 0x80, 0x01, 0x00, 9];
    let mut ctxt = ReadScope::new(&data).ctxt();
    let points = read_packed_point_numbers(&mut ctxt, 0).unwrap();
    assert_eq!(points.iter(), vec![7, 8, 264]);
    assert_eq!(points.len(), 3);
    assert_eq!(ctxt.offset(), 7);
}

#[test]
fn packed_points_beyond_16_bits_are_a_bad_value() {
    let data = [2, 0x81, 0xFF, 0xFF, 0x00, 0x01];
    let mut ctxt = ReadScope::new(&data).ctxt();
    assert_eq!(read_packed_point_numbers(&mut ctxt, 0), Err(ParseError::BadValue));
    let data = [2, 0x81, 0xFF, 0xFE, 0x00, 0x01];
    let mut ctxt = ReadScope::new(&data).ctxt();
    assert_eq!(read_packed_point_numbers(&mut ctxt, 0).unwrap().iter(), vec![0xFFFE, 0xFFFF]);
}

#[test]
fn packed_points_increase() {
    let data = [4, 0x03, 3, 1, 1, 250];
    let points = read_packed_point_numbers(&mut ReadScope::new(&data).ctxt(), 0).unwrap().iter();
    assert_eq!(points, vec![3, 4, 5, 255]);
    assert!(points.windows(2).all(|w| w[0] < w[1]));

    // The first point may be point 0.
    let data = [2, 0x01, 0, 1];
    let points = read_packed_point_numbers(&mut ReadScope::new(&data).ctxt(), 0).unwrap().iter();
    assert_eq!(points, vec![0, 1]);
}

#[test]
fn packed_points_that_repeat_are_a_bad_value() {
    let data = [2, 0x01, 5, 0];
    let mut ctxt = ReadScope::new(&data).ctxt();
    assert_eq!(read_packed_point_numbers(&mut ctxt, 0), Err(ParseError::BadValue));
    let data = [3, 0x02, 3, 0, 2];
    let mut ctxt = ReadScope::new(&data).ctxt();
    assert_eq!(read_packed_point_numbers(&mut ctxt, 0), Err(ParseError::BadValue));
    // The zero stands at the start of a second run.
    let data = [3, 0x01, 3, 1, 0x80, 0x00, 0x00];
    let mut ctxt = ReadScope::new(&data).ctxt();
    assert_eq!(read_packed_point_numbers(&mut ctxt, 0), Err(ParseError::BadValue));
}

#[test]
fn packed_deltas_consume_exactly_what_they_need() {
    let mut data = vec![0x03, 0x0A, 0x97, 0x00, 0xC6, 0x87, 0x41, 0x10, 0x22, 0xFB, 0x34];
    for cut in 0..data.len() {
        let mut ctxt = ReadScope::new(&data[..cut]).ctxt();
        assert_eq!(read_packed_deltas(&mut ctxt, 14), Err(ParseError::BadEof));
    }
    data.extend_from_slice(&[0x00, 0x01]);
    let mut ctxt = ReadScope::new(&data).ctxt();
    assert_eq!(read_packed_deltas(&mut ctxt, 14).unwrap().len(), 14);
    assert_eq!(ctxt.offset(), 11);
    // Nothing is read for no deltas.
    let mut ctxt = ReadScope::new(&data).ctxt();
    assert_eq!(read_packed_deltas(&mut ctxt, 0).unwrap(), Vec::<i16>::new());
    assert_eq!(ctxt.offset(), 0);
}

#[test]
fn packed_deltas_run_beyond_the_count_is_a_bad_value() {
    // A run of four where three deltas are asked for.
    let data = [0x03, 1, 2, 3, 4];
    assert_eq!(
        read_packed_deltas(&mut ReadScope::new(&data).ctxt(), 3),
        Err(ParseError::BadValue)
    );
    // A run of zeros that is too long, behind a run that fits.
    let data = [0x00, 9, 0x82];
    assert_eq!(
        read_packed_deltas(&mut ReadScope::new(&data).ctxt(), 3),
        Err(ParseError::BadValue)
    );
    assert_eq!(
        read_packed_deltas(&mut ReadScope::new(&data).ctxt(), 4).unwrap(),
        vec![9, 0, 0, 0]
    );
}

fn gvar_store_bytes() -> Vec<u8> {
    vec![
        0x80, 0x02, // shared point numbers, two headers
        0x00, 0x10, // offset of the data
        0x00, 0x01, 0x80, 0x00, 0x40, 0x00, // header 0: 1 byte, embedded peak 1.0
        0x00, 0x09, 0x20, 0x03, // header 1: 9 bytes, private points, shared tuple 3
        0xEE, 0xEE, // not looked at
        0x00, // the shared point numbers: all
        0x8B, // data 0: twelve zeros
        0x02, 0x01, 0x01, 0x02, // data 1: the points 1 and 3
        0x03, 0x01, 0x02, 0x03, 0xFF, // their deltas
    ]
}

#[test]
fn tuple_variation_store_gvar() {
    let data = gvar_store_bytes();
    let mut ctxt = ReadScope::new(&data).ctxt();
    let store = TupleVariationStore::<Gvar>::read_dep(&mut ctxt, (1, 6)).unwrap();
    // The cursor stands behind the headers.
    assert_eq!(ctxt.offset(), 14);

    let headers = store.headers();
    assert_eq!(headers.len(), 2);
    assert_eq!(headers[0].tuple_index(), None);
    assert_eq!(headers[1].tuple_index(), Some(3));
    assert!(headers[0].intermediate_region().is_none());

    let shared = store.shared_point_numbers().unwrap();
    assert_eq!(*shared.0, PointNumbers::All(6));

    let data0 = store.variation_data(0).unwrap();
    assert_eq!(data0.len(), 6);
    assert_eq!(
        data0.iter(),
        vec![(0, (0, 0)), (1, (0, 0)), (2, (0, 0)), (3, (0, 0)), (4, (0, 0)), (5, (0, 0))]
    );

    let data1 = store.variation_data(1).unwrap();
    assert_eq!(data1.len(), 2);
    assert_eq!(data1.iter(), vec![(1, (1, 3)), (3, (2, -1))]);

    assert_eq!(store.variation_data(2).err(), Some(ParseError::BadIndex));
}

#[test]
fn tuple_variation_store_peak_tuples() {
    let data = gvar_store_bytes();
    let store =
        TupleVariationStore::<Gvar>::read_dep(&mut ReadScope::new(&data).ctxt(), (1, 6)).unwrap();
    let shared_tuples = [0x00, 0x00, 0x10, 0x00, 0x20, 0x00, 0xC0, 0x00];
    let gvar = GvarTable { axis_count: 1, shared_tuple_count: 4, shared_tuples: &shared_tuples };

    let headers = store.headers();
    let peak0 = headers[0].peak_tuple(&gvar).unwrap();
    assert_eq!(peak0.0.to_vec(), vec![F2Dot14(0x4000)]);
    let peak1 = headers[1].peak_tuple(&gvar).unwrap();
    assert_eq!(peak1.0.to_vec(), vec![F2Dot14(-0x4000)]);

    assert_eq!(gvar.shared_tuple(4).err(), Some(ParseError::BadIndex));
    let short = GvarTable { axis_count: 1, shared_tuple_count: 4, shared_tuples: &[0, 0, 0] };
    assert_eq!(short.shared_tuple(1).err(), Some(ParseError::BadEof));
    assert_eq!(short.shared_tuple(0).unwrap().0.to_vec(), vec![F2Dot14(0)]);
}

#[test]
fn tuple_variation_store_errors() {
    let data = gvar_store_bytes();
    // The data of the last header is cut short.
    assert_eq!(
        TupleVariationStore::<Gvar>::read_dep(
            &mut ReadScope::new(&data[..data.len() - 1]).ctxt(),
            (1, 6)
        )
        .err(),
        Some(ParseError::BadEof)
    );
    // The second header is missing.
    assert_eq!(
        TupleVariationStore::<Gvar>::read_dep(&mut ReadScope::new(&data[..12]).ctxt(), (1, 6))
            .err(),
        Some(ParseError::BadEof)
    );
    // Without shared point numbers the first header has none.
    let mut no_shared = data.clone();
    no_shared[0] = 0x00;
    // The byte of the shared point numbers is now the data of the first header.
    let store =
        TupleVariationStore::<Gvar>::read_dep(&mut ReadScope::new(&no_shared).ctxt(), (1, 6))
            .unwrap();
    assert!(store.shared_point_numbers().is_none());
    assert_eq!(store.variation_data(0).err(), Some(ParseError::MissingValue));
}

#[test]
fn tuple_variation_header_with_intermediate_region() {
    // Two axes, embedded peak and intermediate region.
    let data = [
        0x00, 0x00, 0xC0, 0x00, // no data; embedded peak, intermediate region
        0x40, 0x00, 0x00, 0x00, // peak
        0x00, 0x00, 0x00, 0x00, // start
        0x40, 0x00, 0x20, 0x00, // end
    ];
    let mut ctxt = ReadScope::new(&data).ctxt();
    let header = TupleVariationHeader::<Gvar>::read_dep(&mut ctxt, 2).unwrap();
    assert_eq!(ctxt.offset(), 16);
    assert_eq!(header.tuple_index(), None);
    let (start, end) = header.intermediate_region().unwrap();
    assert_eq!(start.0.to_vec(), vec![F2Dot14(0), F2Dot14(0)]);
    assert_eq!(end.0.to_vec(), vec![F2Dot14(0x4000), F2Dot14(0x2000)]);
    assert_eq!(
        TupleVariationHeader::<Gvar>::read_dep(&mut ReadScope::new(&data[..15]).ctxt(), 2).err(),
        Some(ParseError::BadEof)
    );
}

#[test]
fn cvar_variation_data() {
    let data = [
        0x00, 0x00, 0xA0, 0x00, // embedded peak, private point numbers
        0x40, 0x00, // peak
    ];
    let header = TupleVariationHeader::<Cvar>::read_dep(&mut ReadScope::new(&data).ctxt(), 1).unwrap();
    assert_eq!(header.tuple_index(), None);
    assert_eq!(header.peak_tuple().unwrap().0.to_vec(), vec![F2Dot14(0x4000)]);
    // The header has no data yet, so its private point numbers can not be read.
    assert_eq!(header.variation_data(3, None).err(), Some(ParseError::BadEof));

    // A header without private point numbers takes the shared ones.
    let data = [0x00, 0x00, 0x80, 0x00, 0x40, 0x00];
    let header = TupleVariationHeader::<Cvar>::read_dep(&mut ReadScope::new(&data).ctxt(), 1).unwrap();
    let shared = PointNumbers::Specific(vec![]);
    let values = header.variation_data(3, Some(SharedPointNumbers(&shared))).unwrap();
    assert_eq!(values.len(), 0);
    assert_eq!(values.iter(), Vec::<(u32, i16)>::new());
    assert_eq!(header.variation_data(3, None).err(), Some(ParseError::MissingValue));
}

#[test]
fn cvar_header_without_a_peak_has_no_variation_data() {
    // No embedded peak: the header refers to a shared tuple, which `cvar` has none of.
    let data = [0x00, 0x00, 0x00, 0x02];
    let header = TupleVariationHeader::<Cvar>::read_dep(&mut ReadScope::new(&data).ctxt(), 1).unwrap();
    assert!(header.peak_tuple().is_none());
    assert_eq!(header.tuple_index(), Some(2));
    let shared = PointNumbers::All(3);
    assert_eq!(
        header.variation_data(3, Some(SharedPointNumbers(&shared))).err(),
        Some(ParseError::MissingValue)
    );
    // The same header of `gvar` has its peak among the shared tuples.
    let header = TupleVariationHeader::<Gvar>::read_dep(&mut ReadScope::new(&data).ctxt(), 1).unwrap();
    assert_eq!(header.tuple_index(), Some(2));
}

#[test]
fn tuple_variation_store_without_headers_is_a_bad_value() {
    // Shared point numbers, but a count of zero.
    let data = [0x80, 0x00, 0x00, 0x04, 0x00];
    assert_eq!(
        TupleVariationStore::<Gvar>::read_dep(&mut ReadScope::new(&data).ctxt(), (1, 6)).err(),
        Some(ParseError::BadValue)
    );
    let data = [0x00, 0x00, 0x00, 0x04];
    assert_eq!(
        TupleVariationStore::<Cvar>::read_dep(&mut ReadScope::new(&data).ctxt(), (1, 6)).err(),
        Some(ParseError::BadValue)
    );
    // The count is looked at once both fields are read.
    assert_eq!(
        TupleVariationStore::<Gvar>::read_dep(&mut ReadScope::new(&data[..3]).ctxt(), (1, 6)).err(),
        Some(ParseError::BadEof)
    );
    // One header is the least.
    let data = [0x00, 0x01, 0x00, 0x0A, 0x00, 0x00, 0x80, 0x00, 0x40, 0x00];
    let store =
        TupleVariationStore::<Gvar>::read_dep(&mut ReadScope::new(&data).ctxt(), (1, 6)).unwrap();
    assert_eq!(store.headers().len(), 1);
}

#[test]
fn gvar_variation_data_of_a_header() {
    let store_data = gvar_store_bytes();
    let store = TupleVariationStore::<Gvar>::read_dep(
        &mut ReadScope::new(&store_data).ctxt(),
        (1, 6),
    )
    .unwrap();
    let header = &store.headers()[0];
    // With two points there are four deltas, but the data holds twelve.
    assert_eq!(
        header.variation_data(NumPoints::new(0), None).err(),
        Some(ParseError::MissingValue)
    );
    let shared = PointNumbers::All(2);
    assert_eq!(
        header.variation_data(NumPoints::from_raw(2), Some(SharedPointNumbers(&shared))).err(),
        Some(ParseError::BadValue)
    );
    assert_eq!(NumPoints::new(2).get(), 6);
}

#[test]
fn user_tuple() {
    let data = [0x00, 0x01, 0x80, 0x00, 0xFF, 0xFF, 0x00, 0x00];
    let array: ReadArray<'_, allsorts::binary::Fixed> = ReadArray::new(&data).unwrap();
    let tuple = UserTuple(array);
    assert_eq!(tuple.len(), 2);
    assert_eq!(
        tuple.iter(),
        vec![allsorts::binary::Fixed(0x0001_8000), allsorts::binary::Fixed(-0x1_0000)]
    );
}

fn region(axes: &[(i16, i16, i16)]) -> Vec<u8> {
    let mut data = Vec::new();
    for (start, peak, end) in axes {
        data.extend_from_slice(&start.to_be_bytes());
        data.extend_from_slice(&peak.to_be_bytes());
        data.extend_from_slice(&end.to_be_bytes());
    }
    data
}

fn scalar(axes: &[(i16, i16, i16)], instance: &[i16]) -> Option<Vec<(i32, i32)>> {
    let data = region(axes);
    let region = VariationRegion::read_dep(&mut ReadScope::new(&data).ctxt(), axes.len() as u16).unwrap();
    let tuple: Vec<F2Dot14> = instance.iter().map(|v| F2Dot14(*v)).collect();
    region
        .scalar(&tuple)
        .map(|factors| factors.iter().map(|f: &AxisScalar| (f.numerator, f.denominator)).collect())
}

fn value(factors: &[(i32, i32)]) -> f64 {
    factors.iter().map(|(n, d)| *n as f64 / *d as f64).product()
}

#[test]
fn region_scalar() {
    // At the peak the scalar is one.
    assert_eq!(scalar(&[(0, 0x4000, 0x4000)], &[0x4000]), Some(vec![(1, 1)]));
    // Half-way to the peak it is a half.
    assert_eq!(scalar(&[(0, 0x4000, 0x4000)], &[0x2000]), Some(vec![(0x2000, 0x4000)]));
    // Beyond the peak it falls off towards the end.
    assert_eq!(scalar(&[(0, 0x2000, 0x4000)], &[0x3000]), Some(vec![(0x1000, 0x2000)]));
    // Outside of the region it is zero.
    assert_eq!(scalar(&[(0, 0x2000, 0x3000)], &[0x3001]), None);
    assert_eq!(scalar(&[(0, 0x2000, 0x3000)], &[-1]), None);
    // On the border of the region it is zero too.
    assert_eq!(scalar(&[(0, 0x2000, 0x3000)], &[0]), None);
    assert_eq!(scalar(&[(0, 0x2000, 0x3000)], &[0x3000]), None);
    // An axis with a peak of zero does not count, wherever the instance is.
    assert_eq!(scalar(&[(0, 0, 0)], &[0x1234]), Some(vec![(1, 1)]));
    // The scalar of a region is the product over its axes.
    let factors = scalar(&[(0, 0x4000, 0x4000), (-0x4000, -0x2000, 0)], &[0x1000, -0x1000]).unwrap();
    assert_eq!(factors, vec![(0x1000, 0x4000), (0x1000, 0x2000)]);
    assert_eq!(value(&factors), 0.125);
    assert_eq!(scalar(&[(0, 0x4000, 0x4000), (-0x4000, -0x2000, 0)], &[0x1000, 1]), None);
    // Axes without a coordinate of the instance are left out.
    assert_eq!(scalar(&[(0, 0x4000, 0x4000), (0, 0x2000, 0x3000)], &[0x4000]), Some(vec![(1, 1)]));
    assert_eq!(VariationRegion::size(3), 18);
}

#[test]
fn region_scalar_lies_between_zero_and_one() {
    let coords = [-0x4000i16, -0x2000, -1, 0, 1, 0x1000, 0x2000, 0x4000];
    for &start in &coords {
        for &peak in &coords {
            for &end in &coords {
                for &instance in &coords {
                    match scalar(&[(start, peak, end)], &[instance]) {
                        None => {
                            let outside = instance < start || instance > end;
                            let border = (instance < peak && instance == start)
                                || (instance > peak && instance == end);
                            assert!(peak != 0 && (outside || border));
                        }
                        Some(factors) => {
                            let v = value(&factors);
                            assert!(0.0 < v && v <= 1.0);
                            let at_peak =
                                peak == 0 || (instance == peak && start <= peak && peak <= end);
                            assert_eq!(v == 1.0, at_peak);
                        }
                    }
                }
            }
        }
    }
}

#[test]
fn region_axis_coordinates_from_tuple() {
    let coords = RegionAxisCoordinates::read_from((F2Dot14(1), F2Dot14(2), F2Dot14(3)));
    assert_eq!(
        coords,
        RegionAxisCoordinates {
            start_coord: F2Dot14(1),
            peak_coord: F2Dot14(2),
            end_coord: F2Dot14(3)
        }
    );
}

fn item_variation_store_bytes() -> Vec<u8> {
    let mut data = vec![
        0x00, 0x01, // format
        0x00, 0x00, 0x00, 0x0C, // offset of the region list
        0x00, 0x01, // one sub-table
        0x00, 0x00, 0x00, 0x1C, // its offset
    ];
    // The region list: one axis, two regions.
    data.extend_from_slice(&[0x00, 0x01, 0x00, 0x02]);
    data.extend_from_slice(&region(&[(0, 0x4000, 0x4000)]));
    data.extend_from_slice(&region(&[(-0x4000, -0x4000, 0)]));
    assert_eq!(data.len(), 0x1C);
    // The sub-table: two items, one word delta, two regions.
    data.extend_from_slice(&[0x00, 0x02, 0x00, 0x01, 0x00, 0x02, 0x00, 0x00, 0x00, 0x01]);
    // Rows of one word and one byte.
    data.extend_from_slice(&[0x01, 0x00, 0xFF]);
    data.extend_from_slice(&[0xFF, 0xFE, 0x7F]);
    data
}

#[test]
fn item_variation_store() {
    let data = item_variation_store_bytes();
    let mut ctxt = ReadScope::new(&data).ctxt();
    let store = ItemVariationStore::read(&mut ctxt).unwrap();
    assert_eq!(ctxt.offset(), 12);

    let region0 = store.variation_region(0).unwrap();
    assert_eq!(region0.scalar(&[F2Dot14(0x1000)]).unwrap()[0], AxisScalar { numerator: 0x1000, denominator: 0x4000 });
    let region1 = store.variation_region(1).unwrap();
    assert!(region1.scalar(&[F2Dot14(0x1000)]).is_none());
    assert!(store.variation_region(2).is_none());

    let items = store.item_variation_data();
    assert_eq!(items.len(), 1);
    assert_eq!(items[0].delta_set(0).unwrap().iter(), vec![256, -1]);
    assert_eq!(items[0].delta_set(1).unwrap().iter(), vec![-2, 127]);
    assert!(items[0].delta_set(2).is_none());
}

#[test]
fn item_variation_store_errors() {
    let data = item_variation_store_bytes();
    let mut bad_format = data.clone();
    bad_format[1] = 2;
    assert_eq!(
        ItemVariationStore::read(&mut ReadScope::new(&bad_format).ctxt()).err(),
        Some(ParseError::BadValue)
    );
    assert_eq!(
        ItemVariationStore::read(&mut ReadScope::new(&data[..data.len() - 1]).ctxt()).err(),
        Some(ParseError::BadEof)
    );
    // The highest bit of the number of regions must be clear.
    let mut many_regions = data.clone();
    many_regions[0x0E] = 0x80;
    assert_eq!(
        ItemVariationStore::read(&mut ReadScope::new(&many_regions).ctxt()).err(),
        Some(ParseError::BadValue)
    );
    // An offset beyond the end leaves nothing to read.
    let mut far = data.clone();
    far[8..12].copy_from_slice(&[0x00, 0x01, 0x00, 0x00]);
    assert_eq!(
        ItemVariationStore::read(&mut ReadScope::new(&far).ctxt()).err(),
        Some(ParseError::BadEof)
    );
}

#[test]
fn item_variation_data_with_long_words() {
    // One item, one long word delta, two regions: rows of 4 + 2 bytes.
    let data = [
        0x00, 0x01, 0x80, 0x01, 0x00, 0x02, 0x00, 0x00, 0x00, 0x01, // header
        0xFF, 0xFF, 0xFF, 0xFD, 0x80, 0x00, // the row
    ];
    let item = ItemVariationData::read(&mut ReadScope::new(&data).ctxt()).unwrap();
    assert_eq!(item.delta_set(0).unwrap().iter(), vec![-3, -32768]);
    assert!(item.delta_set(1).is_none());
}

#[test]
fn regular_and_long_delta_sets() {
    let set = RegularDeltaSet::new(&[0x01, 0x00, 0xFF, 0xFF], &[0x7F, 0x80]).unwrap();
    assert_eq!(set.iter(), vec![256, -1, 127, -128]);
    assert!(RegularDeltaSet::new(&[0x01], &[]).is_none());

    let set = LongDeltaSet::new(&[0x00, 0x01, 0x00, 0x00], &[0xFF, 0xFE]).unwrap();
    assert_eq!(set.iter(), vec![65536, -2]);
    assert!(LongDeltaSet::new(&[0, 0, 0], &[]).is_none());
    assert!(LongDeltaSet::new(&[], &[0]).is_none());
}

#[test]
fn delta_set_index_map() {
    // Format 0, entries of two bytes with four bits for the inner index.
    let data = [0x00, 0x13, 0x00, 0x02, 0x01, 0x23, 0xFF, 0xFF];
    let mut ctxt = ReadScope::new(&data).ctxt();
    let map = DeltaSetIndexMap::read(&mut ctxt).unwrap();
    assert_eq!(ctxt.offset(), 8);
    assert_eq!(map.map_count(), 2);
    assert_eq!(map.entry(0), Ok(DeltaSetIndexMapEntry { outer_index: 0x12, inner_index: 0x3 }));
    assert_eq!(map.entry(1), Ok(DeltaSetIndexMapEntry { outer_index: 0xFFF, inner_index: 0xF }));
    assert_eq!(map.entry(2), Err(ParseError::BadIndex));

    // Format 1 has a 32-bit count; entries of one byte with one bit for the inner index.
    let data = [0x01, 0x00, 0x00, 0x00, 0x00, 0x03, 0x05, 0x06, 0x07];
    let map = DeltaSetIndexMap::read(&mut ReadScope::new(&data).ctxt()).unwrap();
    assert_eq!(map.entry(0), Ok(DeltaSetIndexMapEntry { outer_index: 2, inner_index: 1 }));
    assert_eq!(map.entry(2), Ok(DeltaSetIndexMapEntry { outer_index: 3, inner_index: 1 }));

    // Entries of four bytes with sixteen bits for the inner index.
    let data = [0x00, 0x3F, 0x00, 0x01, 0x12, 0x34, 0x56, 0x78];
    let map = DeltaSetIndexMap::read(&mut ReadScope::new(&data).ctxt()).unwrap();
    assert_eq!(map.entry(0), Ok(DeltaSetIndexMapEntry { outer_index: 0x1234, inner_index: 0x5678 }));

    assert_eq!(
        DeltaSetIndexMap::read(&mut ReadScope::new(&[0x02, 0x00, 0x00, 0x00]).ctxt()).err(),
        Some(ParseError::BadVersion)
    );
    assert_eq!(
        DeltaSetIndexMap::read(&mut ReadScope::new(&[0x00, 0x10, 0x00, 0x01, 0x00]).ctxt()).err(),
        Some(ParseError::BadEof)
    );
}

#[test]
fn more_deltas_than_32_bits_count_are_beyond_the_limit() {
    let store_data = gvar_store_bytes();
    let store = TupleVariationStore::<Gvar>::read_dep(
        &mut ReadScope::new(&store_data).ctxt(),
        (1, 6),
    )
    .unwrap();
    let header = &store.headers()[0];
    let shared = PointNumbers::All(0x8000_0000);
    assert_eq!(shared.len(), 0x8000_0000);
    assert_eq!(
        header
            .variation_data(NumPoints::from_raw(0x8000_0000), Some(SharedPointNumbers(&shared)))
            .err(),
        Some(ParseError::LimitExceeded)
    );
}

#[test]
fn region_scalar_on_borders_and_off_peaks() {
    // On the border of a region the scalar is zero, though the instance is within.
    assert_eq!(scalar(&[(0, 0x2000, 0x4000)], &[0]), None);
    // An axis with a peak of zero counts for one, though the instance is outside.
    assert_eq!(scalar(&[(0, 0, 0)], &[0x2000]), Some(vec![(1, 1)]));
    // A peak outside of its region is never met.
    assert_eq!(scalar(&[(0x2000, 0x1000, 0x4000)], &[0x1000]), None);
}
