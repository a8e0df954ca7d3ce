use parseable_storage::column::{
    BoolType, Column, Float64Type, Int64Type, Int96Value, LogicalType, NativeStatistics, Scalar,
    StatisticsError, StatsKind, StatsMergeError, TypedStatistics, Utf8Type,
};

fn ints(min: i64, max: i64) -> TypedStatistics {
    TypedStatistics::Int(Int64Type { min, max })
}

fn floats(min: f64, max: f64) -> TypedStatistics {
    TypedStatistics::Float(Float64Type { min: min.to_bits(), max: max.to_bits() })
}

fn texts(min: &str, max: &str) -> TypedStatistics {
    TypedStatistics::String(Utf8Type { min: min.to_string(), max: max.to_string() })
}

#[test]
fn update_ints_takes_outer_bounds() {
    let r = ints(3, 10).update(ints(-2, 7)).unwrap();
    assert_eq!(r, ints(-2, 10));
}

#[test]
fn update_is_commutative_on_examples() {
    assert_eq!(ints(3, 10).update(ints(-2, 7)), ints(-2, 7).update(ints(3, 10)));
    assert_eq!(texts("b", "k").update(texts("a", "c")), texts("a", "c").update(texts("b", "k")));
    assert_eq!(floats(1.5, 2.0).update(floats(-1.0, 9.0)), floats(-1.0, 9.0).update(floats(1.5, 2.0)));
}

#[test]
fn update_bools() {
    let a = TypedStatistics::Bool(BoolType { min: true, max: true });
    let b = TypedStatistics::Bool(BoolType { min: false, max: false });
    assert_eq!(a.update(b).unwrap(), TypedStatistics::Bool(BoolType { min: false, max: true }));
}

#[test]
fn update_texts_is_lexicographic() {
    let r = texts("apple", "melon").update(texts("apricot", "zebra")).unwrap();
    assert_eq!(r, texts("apple", "zebra"));
    let r = texts("ab", "b").update(texts("a", "ba")).unwrap();
    assert_eq!(r, texts("a", "ba"));
}

#[test]
fn update_floats_uses_total_order() {
    let r = floats(-0.5, 3.25).update(floats(-7.0, 1.0)).unwrap();
    assert_eq!(r, floats(-7.0, 3.25));
    let r = floats(0.0, 0.0).update(floats(-0.0, -0.0)).unwrap();
    assert_eq!(r, floats(-0.0, 0.0));
    let nan = f64::NAN;
    let r = floats(1.0, 2.0).update(floats(nan, nan)).unwrap();
    assert_eq!(r, floats(1.0, nan));
}

#[test]
fn update_across_kinds_is_rejected() {
    let r = ints(1, 2).update(texts("a", "b"));
    assert_eq!(r, Err(StatsMergeError { expected: StatsKind::Int, found: StatsKind::String }));
    let r = floats(1.0, 2.0).update(TypedStatistics::Bool(BoolType { min: false, max: true }));
    assert_eq!(r, Err(StatsMergeError { expected: StatsKind::Float, found: StatsKind::Bool }));
}

#[test]
fn scalar_bounds_for_supported_types() {
    assert_eq!(
        ints(-5, 1 << 40).min_max_as_scalar(&LogicalType::Int32),
        Some((Scalar::Int32(-5), Scalar::Int32(((1i64 << 40) as i32))))
    );
    assert_eq!(ints(-5, 9).min_max_as_scalar(&LogicalType::Int64), Some((Scalar::Int64(-5), Scalar::Int64(9))));
    assert_eq!(
        TypedStatistics::Bool(BoolType { min: false, max: true }).min_max_as_scalar(&LogicalType::Boolean),
        Some((Scalar::Boolean(false), Scalar::Boolean(true)))
    );
    assert_eq!(
        floats(1.5, 2.5).min_max_as_scalar(&LogicalType::Float64),
        Some((Scalar::Float64(1.5f64.to_bits()), Scalar::Float64(2.5f64.to_bits())))
    );
    assert_eq!(
        floats(1.5, 2.5).min_max_as_scalar(&LogicalType::Float32),
        Some((Scalar::Float32(1.5f64.to_bits()), Scalar::Float32(2.5f64.to_bits())))
    );
    assert_eq!(
        texts("a", "z").min_max_as_scalar(&LogicalType::Utf8),
        Some((Scalar::Utf8("a".to_string()), Scalar::Utf8("z".to_string())))
    );
}

#[test]
fn scalar_bounds_unsupported_pairs_are_none() {
    assert_eq!(ints(1, 2).min_max_as_scalar(&LogicalType::Boolean), None);
    assert_eq!(ints(1, 2).min_max_as_scalar(&LogicalType::Utf8), None);
    assert_eq!(texts("a", "b").min_max_as_scalar(&LogicalType::LargeUtf8), None);
    assert_eq!(floats(1.0, 2.0).min_max_as_scalar(&LogicalType::Int64), None);
    assert_eq!(TypedStatistics::Bool(BoolType { min: false, max: true }).min_max_as_scalar(&LogicalType::Int32), None);
}

#[test]
fn native_without_bounds_fails() {
    let r = TypedStatistics::try_from(&NativeStatistics::Int64(None, None));
    assert_eq!(r, Err(StatisticsError::MinMaxNotSet));
    let r = TypedStatistics::try_from(&NativeStatistics::Boolean(Some(true), None));
    assert_eq!(r, Err(StatisticsError::MinMaxNotSet));
    let r = TypedStatistics::try_from(&NativeStatistics::ByteArray(None, Some(b"x".to_vec())));
    assert_eq!(r, Err(StatisticsError::MinMaxNotSet));
}

#[test]
fn native_values_widen() {
    let r = TypedStatistics::try_from(&NativeStatistics::Int32(Some(-3), Some(i32::MAX))).unwrap();
    assert_eq!(r, ints(-3, i32::MAX as i64));
    let r = TypedStatistics::try_from(&NativeStatistics::Int64(Some(i64::MIN), Some(4))).unwrap();
    assert_eq!(r, ints(i64::MIN, 4));
    let lo = (0.25f32 as f64).to_bits();
    let hi = (8.5f32 as f64).to_bits();
    let r = TypedStatistics::try_from(&NativeStatistics::Float(Some(lo), Some(hi))).unwrap();
    assert_eq!(r, floats(0.25, 8.5));
    let r = TypedStatistics::try_from(&NativeStatistics::Double(Some(1.0f64.to_bits()), Some(2.0f64.to_bits()))).unwrap();
    assert_eq!(r, floats(1.0, 2.0));
    let r = TypedStatistics::try_from(&NativeStatistics::Boolean(Some(false), Some(true))).unwrap();
    assert_eq!(r, TypedStatistics::Bool(BoolType { min: false, max: true }));
}

#[test]
fn native_byte_arrays_read_as_text() {
    let r = TypedStatistics::try_from(&NativeStatistics::ByteArray(Some(b"alpha".to_vec()), Some("zé".as_bytes().to_vec()))).unwrap();
    assert_eq!(r, texts("alpha", "zé"));
    let r = TypedStatistics::try_from(&NativeStatistics::FixedLenByteArray(Some(b"aa".to_vec()), Some(b"bb".to_vec()))).unwrap();
    assert_eq!(r, texts("aa", "bb"));
    let r = TypedStatistics::try_from(&NativeStatistics::ByteArray(Some(vec![0xff, 0xfe]), Some(b"b".to_vec())));
    assert_eq!(r, Err(StatisticsError::InvalidUtf8));
}

#[test]
fn native_int96_becomes_millis() {
    // Julian day 2440588 is the Unix epoch.
    let epoch = Int96Value { lo: 0, mid: 0, hi: 2_440_588 };
    let later = Int96Value { lo: 3_000_000, mid: 0, hi: 2_440_589 };
    let r = TypedStatistics::try_from(&NativeStatistics::Int96(Some(epoch), Some(later))).unwrap();
    assert_eq!(r, ints(0, 86_400_000 + 3));
}

#[test]
fn column_entry_from_native() {
    let c = Column::from_native("level".to_string(), Some(&NativeStatistics::Int32(Some(1), Some(5))), 100, 40).unwrap();
    assert_eq!(c.name, "level");
    assert_eq!(c.stats, Some(ints(1, 5)));
    assert_eq!(c.uncompressed_size, 100);
    assert_eq!(c.compressed_size, 40);
    let c = Column::from_native("empty".to_string(), None, 0, 0).unwrap();
    assert_eq!(c.stats, None);
    let e = Column::from_native("bad".to_string(), Some(&NativeStatistics::Double(None, None)), 1, 1);
    assert_eq!(e, Err(StatisticsError::MinMaxNotSet));
}
