use vstd::prelude::*;
use vstd::string::*;

verus! {

/// Minimum and maximum of a boolean column.
#[derive(Clone, Debug, PartialEq, Eq)]
pub struct BoolType {
    pub min: bool,
    pub max: bool,
}

/// Minimum and maximum of a 64-bit floating-point column, each held as its
/// IEEE-754 bit pattern so that the total order over doubles can be decided
/// on integers.
#[derive(Clone, Debug, PartialEq, Eq)]
pub struct Float64Type {
    pub min: u64,
    pub max: u64,
}

/// Minimum and maximum of an integer column, widened to 64 bits.
#[derive(Clone, Debug, PartialEq, Eq)]
pub struct Int64Type {
    pub min: i64,
    pub max: i64,
}

/// Minimum and maximum of a text column.
#[derive(Clone, Debug, PartialEq, Eq)]
pub struct Utf8Type {
    pub min: String,
    pub max: String,
}

/// Statistics of one column of one file; every native type is folded into
/// one of these four.
#[derive(Clone, Debug, PartialEq, Eq)]
pub enum TypedStatistics {
    Bool(BoolType),
    Int(Int64Type),
    Float(Float64Type),
    String(Utf8Type),
}

/// Which of the four kinds a statistics value is.
#[derive(Clone, Copy, Debug, PartialEq, Eq, Structural)]
pub enum StatsKind {
    Bool,
    Int,
    Float,
    String,
}

/// Two statistics of different kinds cannot be merged.
#[derive(Clone, Copy, Debug, PartialEq, Eq, Structural)]
pub struct StatsMergeError {
    pub expected: StatsKind,
    pub found: StatsKind,
}

/// Mathematical value of a statistics: its kind with its two bounds.
pub enum StatsView {
    Bool(bool, bool),
    Int(i64, i64),
    Float(u64, u64),
    Text(Seq<char>, Seq<char>),
}

/// Lexicographic order on texts by code point, which is also the byte order
/// of their UTF-8 encodings.
pub open spec fn text_le(a: Seq<char>, b: Seq<char>) -> bool
    decreases a.len(),
{
    if a.len() == 0 {
        true
    } else if b.len() == 0 {
        false
    } else if a[0] != b[0] {
        (a[0] as int) < (b[0] as int)
    } else {
        text_le(a.drop_first(), b.drop_first())
    }
}

/// Position of a double's bit pattern in the IEEE-754 total order
/// (negative NaN < -inf < ... < -0 < +0 < ... < +inf < positive NaN).
pub open spec fn float_rank(bits: u64) -> int {
    if bits >= 0x8000_0000_0000_0000u64 {
        -(bits - 0x8000_0000_0000_0000u64) - 1
    } else {
        bits as int
    }
}

pub open spec fn float_le(a: u64, b: u64) -> bool {
    float_rank(a) <= float_rank(b)
}

pub open spec fn bool_le(a: bool, b: bool) -> bool {
    !a || b
}

pub open spec fn text_min(a: Seq<char>, b: Seq<char>) -> Seq<char> {
    if text_le(a, b) { a } else { b }
}

pub open spec fn text_max(a: Seq<char>, b: Seq<char>) -> Seq<char> {
    if text_le(a, b) { b } else { a }
}

pub open spec fn float_min(a: u64, b: u64) -> u64 {
    if float_le(a, b) { a } else { b }
}

pub open spec fn float_max(a: u64, b: u64) -> u64 {
    if float_le(a, b) { b } else { a }
}

pub open spec fn int_min(a: i64, b: i64) -> i64 {
    if a <= b { a } else { b }
}

pub open spec fn int_max(a: i64, b: i64) -> i64 {
    if a <= b { b } else { a }
}

impl StatsView {
    pub open spec fn kind(self) -> StatsKind {
        match self {
            StatsView::Bool(_, _) => StatsKind::Bool,
            StatsView::Int(_, _) => StatsKind::Int,
            StatsView::Float(_, _) => StatsKind::Float,
            StatsView::Text(_, _) => StatsKind::String,
        }
    }

    /// The lower bound does not exceed the upper bound in the kind's order.
    pub open spec fn wf(self) -> bool {
        match self {
            StatsView::Bool(lo, hi) => bool_le(lo, hi),
            StatsView::Int(lo, hi) => lo <= hi,
            StatsView::Float(lo, hi) => float_le(lo, hi),
            StatsView::Text(lo, hi) => text_le(lo, hi),
        }
    }

    /// Smallest range covering both, for two values of the same kind.
    pub open spec fn merge(self, other: StatsView) -> StatsView
        recommends
            self.kind() == other.kind(),
    {
        match (self, other) {
            (StatsView::Bool(a, b), StatsView::Bool(c, d)) => StatsView::Bool(a && c, b || d),
            (StatsView::Int(a, b), StatsView::Int(c, d)) => StatsView::Int(int_min(a, c), int_max(b, d)),
            (StatsView::Float(a, b), StatsView::Float(c, d)) => StatsView::Float(
                float_min(a, c),
                float_max(b, d),
            ),
            (StatsView::Text(a, b), StatsView::Text(c, d)) => StatsView::Text(
                text_min(a, c),
                text_max(b, d),
            ),
            _ => self,
        }
    }
}

impl View for TypedStatistics {
    type V = StatsView;

    open spec fn view(&self) -> StatsView {
        match self {
            TypedStatistics::Bool(s) => StatsView::Bool(s.min, s.max),
            TypedStatistics::Int(s) => StatsView::Int(s.min, s.max),
            TypedStatistics::Float(s) => StatsView::Float(s.min, s.max),
            TypedStatistics::String(s) => StatsView::Text(s.min@, s.max@),
        }
    }
}


/// Any two texts are ordered one way or the other.
pub proof fn lemma_text_le_total(a: Seq<char>, b: Seq<char>)
    ensures
        text_le(a, b) || text_le(b, a),
    decreases a.len(),
{
    if a.len() > 0 && b.len() > 0 {
        if a[0] == b[0] {
            lemma_text_le_total(a.drop_first(), b.drop_first());
        } else {
            assert((a[0] as int) != (b[0] as int));
        }
    }
}

pub proof fn lemma_text_le_reflexive(a: Seq<char>)
    ensures
        text_le(a, a),
    decreases a.len(),
{
    if a.len() > 0 {
        lemma_text_le_reflexive(a.drop_first());
    }
}

/// Texts ordered both ways are equal.
pub proof fn lemma_text_le_antisymmetric(a: Seq<char>, b: Seq<char>)
    requires
        text_le(a, b),
        text_le(b, a),
    ensures
        a == b,
    decreases a.len(),
{
    if a.len() > 0 && b.len() > 0 {
        if a[0] == b[0] {
            lemma_text_le_antisymmetric(a.drop_first(), b.drop_first());
            assert(a =~= seq![a[0]] + a.drop_first());
            assert(b =~= seq![b[0]] + b.drop_first());
        }
    } else {
        assert(a.len() == 0 && b.len() == 0);
        assert(a =~= b);
    }
}

pub proof fn lemma_text_le_transitive(a: Seq<char>, b: Seq<char>, c: Seq<char>)
    requires
        text_le(a, b),
        text_le(b, c),
    ensures
        text_le(a, c),
    decreases a.len(),
{
    if a.len() > 0 && b.len() > 0 && c.len() > 0 && a[0] == b[0] && b[0] == c[0] {
        lemma_text_le_transitive(a.drop_first(), b.drop_first(), c.drop_first());
    }
}

/// Decides `text_le(a@, b@)`.
pub fn text_less_eq(a: &String, b: &String) -> (r: bool)
    ensures
        r == text_le(a@, b@),
{
    let x = a.as_str();
    let y = b.as_str();
    let n = x.unicode_len();
    let m = y.unicode_len();
    let mut i: usize = 0;
    proof {
        assert(a@.skip(0) =~= a@);
        assert(b@.skip(0) =~= b@);
    }
    while i < n && i < m
        invariant
            n == a@.len(),
            m == b@.len(),
            x@ == a@,
            y@ == b@,
            i <= n,
            i <= m,
            text_le(a@, b@) == text_le(a@.skip(i as int), b@.skip(i as int)),
        decreases n - i,
    {
        let c = x.get_char(i);
        let d = y.get_char(i);
        proof {
            assert(a@.skip(i as int)[0] == c);
            assert(b@.skip(i as int)[0] == d);
        }
        if c != d {
            return c < d;
        }
        proof {
            assert(a@.skip(i as int).drop_first() =~= a@.skip(i + 1));
            assert(b@.skip(i as int).drop_first() =~= b@.skip(i + 1));
        }
        i = i + 1;
    }
    i == n
}

/// Decides `float_le(a, b)`: the IEEE-754 total order, on bit patterns.
pub fn float_less_eq(a: u64, b: u64) -> (r: bool)
    ensures
        r == float_le(a, b),
{
    let neg_a = a >= 0x8000_0000_0000_0000u64;
    let neg_b = b >= 0x8000_0000_0000_0000u64;
    if neg_a && neg_b {
        a >= b
    } else if !neg_a && !neg_b {
        a <= b
    } else {
        neg_a
    }
}


impl TypedStatistics {
    pub fn kind(&self) -> (r: StatsKind)
        ensures
            r == self@.kind(),
    {
        match self {
            TypedStatistics::Bool(_) => StatsKind::Bool,
            TypedStatistics::Int(_) => StatsKind::Int,
            TypedStatistics::Float(_) => StatsKind::Float,
            TypedStatistics::String(_) => StatsKind::String,
        }
    }

    /// Merges two statistics of the same kind into the smallest range that
    /// covers both; statistics of different kinds are refused.
    pub fn update(self, other: Self) -> (r: Result<Self, StatsMergeError>)
        ensures
            r is Ok <==> self@.kind() == other@.kind(),
            r matches Ok(s) ==> s@ == self@.merge(other@),
            r matches Err(e) ==> e == (StatsMergeError {
                expected: self@.kind(),
                found: other@.kind(),
            }),
    {
        let expected = self.kind();
        let found = other.kind();
        match (self, other) {
            (TypedStatistics::Bool(a), TypedStatistics::Bool(b)) => Ok(
                TypedStatistics::Bool(BoolType { min: a.min && b.min, max: a.max || b.max }),
            ),
            (TypedStatistics::Int(a), TypedStatistics::Int(b)) => Ok(
                TypedStatistics::Int(
                    Int64Type {
                        min: if a.min <= b.min { a.min } else { b.min },
                        max: if a.max <= b.max { b.max } else { a.max },
                    },
                ),
            ),
            (TypedStatistics::Float(a), TypedStatistics::Float(b)) => {
                let min = if float_less_eq(a.min, b.min) { a.min } else { b.min };
                let max = if float_less_eq(a.max, b.max) { b.max } else { a.max };
                Ok(TypedStatistics::Float(Float64Type { min, max }))
            },
            (TypedStatistics::String(a), TypedStatistics::String(b)) => {
                let lo_first = text_less_eq(&a.min, &b.min);
                let hi_first = text_less_eq(&a.max, &b.max);
                let Utf8Type { min: a_min, max: a_max } = a;
                let Utf8Type { min: b_min, max: b_max } = b;
                let min = if lo_first { a_min } else { b_min };
                let max = if hi_first { b_max } else { a_max };
                Ok(TypedStatistics::String(Utf8Type { min, max }))
            },
            _ => Err(StatsMergeError { expected, found }),
        }
    }
}

/// Merging is commutative: both orders give the same range.
pub proof fn lemma_update_commutative(a: TypedStatistics, b: TypedStatistics)
    requires
        a@.kind() == b@.kind(),
    ensures
        a@.merge(b@) == b@.merge(a@),
{
    match (a@, b@) {
        (StatsView::Float(x, y), StatsView::Float(z, w)) => {
            assert(float_min(x, z) == float_min(z, x));
            assert(float_max(y, w) == float_max(w, y));
        },
        (StatsView::Text(x, y), StatsView::Text(z, w)) => {
            lemma_text_le_total(x, z);
            lemma_text_le_total(y, w);
            if text_le(x, z) && text_le(z, x) {
                lemma_text_le_antisymmetric(x, z);
            }
            if text_le(y, w) && text_le(w, y) {
                lemma_text_le_antisymmetric(y, w);
            }
        },
        _ => {},
    }
}

/// `outer`'s range contains `inner`'s, in the order of their kind.
pub open spec fn covers(outer: StatsView, inner: StatsView) -> bool {
    match (outer, inner) {
        (StatsView::Bool(a, b), StatsView::Bool(c, d)) => bool_le(a, c) && bool_le(d, b),
        (StatsView::Int(a, b), StatsView::Int(c, d)) => a <= c && d <= b,
        (StatsView::Float(a, b), StatsView::Float(c, d)) => float_le(a, c) && float_le(d, b),
        (StatsView::Text(a, b), StatsView::Text(c, d)) => text_le(a, c) && text_le(d, b),
        _ => false,
    }
}

/// A merge of two well-formed statistics is well formed, and its range
/// contains both input ranges.
pub proof fn lemma_update_preserves_bounds(a: TypedStatistics, b: TypedStatistics)
    requires
        a@.kind() == b@.kind(),
        a@.wf(),
        b@.wf(),
    ensures
        a@.merge(b@).wf(),
        a@.merge(b@).kind() == a@.kind(),
        covers(a@.merge(b@), a@),
        covers(a@.merge(b@), b@),
{
    match (a@, b@) {
        (StatsView::Text(x, y), StatsView::Text(z, w)) => {
            lemma_text_le_total(x, z);
            lemma_text_le_total(y, w);
            lemma_text_le_reflexive(x);
            lemma_text_le_reflexive(y);
            lemma_text_le_reflexive(z);
            lemma_text_le_reflexive(w);
            let hi = text_max(y, w);
            if text_le(x, z) {
                lemma_text_le_transitive(x, y, hi);
            } else {
                lemma_text_le_transitive(z, w, hi);
            }
        },
        _ => {},
    }
}


/// Logical column type of the query engine that bounds are requested for.
#[derive(Clone, Copy, Debug, PartialEq, Eq, Structural)]
pub enum LogicalType {
    Null,
    Boolean,
    Int8,
    Int16,
    Int32,
    Int64,
    UInt8,
    UInt16,
    UInt32,
    UInt64,
    Float16,
    Float32,
    Float64,
    Utf8,
    LargeUtf8,
    Binary,
    Timestamp,
    Date32,
    Date64,
    Other,
}

/// A bound handed to the query engine. Floating-point bounds are carried as
/// the bit pattern of a double; for `Float32` the consumer narrows that
/// double to single precision.
#[derive(Clone, Debug, PartialEq, Eq)]
pub enum Scalar {
    Boolean(bool),
    Int32(i32),
    Int64(i64),
    Float32(u64),
    Float64(u64),
    Utf8(String),
}

pub enum ScalarView {
    Boolean(bool),
    Int32(i32),
    Int64(i64),
    Float32(u64),
    Float64(u64),
    Utf8(Seq<char>),
}

impl View for Scalar {
    type V = ScalarView;

    open spec fn view(&self) -> ScalarView {
        match self {
            Scalar::Boolean(b) => ScalarView::Boolean(*b),
            Scalar::Int32(v) => ScalarView::Int32(*v),
            Scalar::Int64(v) => ScalarView::Int64(*v),
            Scalar::Float32(v) => ScalarView::Float32(*v),
            Scalar::Float64(v) => ScalarView::Float64(*v),
            Scalar::Utf8(s) => ScalarView::Utf8(s@),
        }
    }
}

/// The pair of bounds of `s` for a column of type `t`, where that pair of
/// kind and type is supported.
pub open spec fn projected(s: StatsView, t: LogicalType) -> Option<(ScalarView, ScalarView)> {
    match (s, t) {
        (StatsView::Bool(lo, hi), LogicalType::Boolean) => Some(
            (ScalarView::Boolean(lo), ScalarView::Boolean(hi)),
        ),
        (StatsView::Int(lo, hi), LogicalType::Int32) => Some(
            (ScalarView::Int32(lo as i32), ScalarView::Int32(hi as i32)),
        ),
        (StatsView::Int(lo, hi), LogicalType::Int64) => Some(
            (ScalarView::Int64(lo), ScalarView::Int64(hi)),
        ),
        (StatsView::Float(lo, hi), LogicalType::Float32) => Some(
            (ScalarView::Float32(lo), ScalarView::Float32(hi)),
        ),
        (StatsView::Float(lo, hi), LogicalType::Float64) => Some(
            (ScalarView::Float64(lo), ScalarView::Float64(hi)),
        ),
        (StatsView::Text(lo, hi), LogicalType::Utf8) => Some(
            (ScalarView::Utf8(lo), ScalarView::Utf8(hi)),
        ),
        _ => None,
    }
}

impl TypedStatistics {
    /// Bounds as scalars of the requested column type; `None` where the kind
    /// of the statistics does not serve that type.
    pub fn min_max_as_scalar(self, datatype: &LogicalType) -> (r: Option<(Scalar, Scalar)>)
        ensures
            match r {
                Some((lo, hi)) => projected(self@, *datatype) == Some((lo@, hi@)),
                None => projected(self@, *datatype) is None,
            },
    {
        match (self, datatype) {
            (TypedStatistics::Bool(s), LogicalType::Boolean) => Some(
                (Scalar::Boolean(s.min), Scalar::Boolean(s.max)),
            ),
            (TypedStatistics::Int(s), LogicalType::Int32) => Some(
                (Scalar::Int32(s.min as i32), Scalar::Int32(s.max as i32)),
            ),
            (TypedStatistics::Int(s), LogicalType::Int64) => Some(
                (Scalar::Int64(s.min), Scalar::Int64(s.max)),
            ),
            (TypedStatistics::Float(s), LogicalType::Float32) => Some(
                (Scalar::Float32(s.min), Scalar::Float32(s.max)),
            ),
            (TypedStatistics::Float(s), LogicalType::Float64) => Some(
                (Scalar::Float64(s.min), Scalar::Float64(s.max)),
            ),
            (TypedStatistics::String(s), LogicalType::Utf8) => Some(
                (Scalar::Utf8(s.min), Scalar::Utf8(s.max)),
            ),
            _ => None,
        }
    }
}


/// A 96-bit timestamp as stored in a columnar file: three little-endian
/// words, the last holding the Julian day.
#[derive(Clone, Copy, Debug, PartialEq, Eq, Structural)]
pub struct Int96Value {
    pub lo: u32,
    pub mid: u32,
    pub hi: u32,
}

/// Per-column statistics as a columnar file stores them, by physical type,
/// each bound absent where the file did not record it. Single-precision
/// bounds are given as the bit pattern of the same value widened to a double.
#[derive(Clone, Debug, PartialEq, Eq)]
pub enum NativeStatistics {
    Boolean(Option<bool>, Option<bool>),
    Int32(Option<i32>, Option<i32>),
    Int64(Option<i64>, Option<i64>),
    Int96(Option<Int96Value>, Option<Int96Value>),
    Float(Option<u64>, Option<u64>),
    Double(Option<u64>, Option<u64>),
    ByteArray(Option<Vec<u8>>, Option<Vec<u8>>),
    FixedLenByteArray(Option<Vec<u8>>, Option<Vec<u8>>),
}

/// Why native statistics could not be read.
#[derive(Clone, Copy, Debug, PartialEq, Eq, Structural)]
pub enum StatisticsError {
    MinMaxNotSet,
    InvalidUtf8,
}

/// Milliseconds since the Unix epoch of a 96-bit timestamp.
pub uninterp spec fn int96_millis(v: Int96Value) -> i64;

/// Text that a byte string decodes to as UTF-8, if it is valid UTF-8.
pub uninterp spec fn utf8_text(bytes: Seq<u8>) -> Option<Seq<char>>;

/// Relies on parquet's `Int96::to_millis`: milliseconds since the epoch,
/// wrapping on overflow.
#[verifier::external_body]
fn int96_to_millis(v: &Int96Value) -> (r: i64)
    ensures
        r == int96_millis(*v),
{
    let mut t = parquet::data_type::Int96::new();
    t.set_data(v.lo, v.mid, v.hi);
    t.to_millis()
}

/// Relies on parquet's `ByteArray::as_utf8`: the bytes read as UTF-8 text,
/// or an error where they are not valid UTF-8.
#[verifier::external_body]
fn bytes_as_utf8(bytes: &Vec<u8>) -> (r: Option<String>)
    ensures
        match r {
            Some(s) => utf8_text(bytes@) == Some(s@),
            None => utf8_text(bytes@) is None,
        },
{
    match parquet::data_type::ByteArray::from(bytes.clone()).as_utf8() {
        Ok(text) => Some(text.to_string()),
        Err(_) => None,
    }
}

impl NativeStatistics {
    /// Both bounds are recorded.
    pub open spec fn has_min_max(&self) -> bool {
        match self {
            NativeStatistics::Boolean(lo, hi) => lo is Some && hi is Some,
            NativeStatistics::Int32(lo, hi) => lo is Some && hi is Some,
            NativeStatistics::Int64(lo, hi) => lo is Some && hi is Some,
            NativeStatistics::Int96(lo, hi) => lo is Some && hi is Some,
            NativeStatistics::Float(lo, hi) => lo is Some && hi is Some,
            NativeStatistics::Double(lo, hi) => lo is Some && hi is Some,
            NativeStatistics::ByteArray(lo, hi) => lo is Some && hi is Some,
            NativeStatistics::FixedLenByteArray(lo, hi) => lo is Some && hi is Some,
        }
    }
}

pub open spec fn text_stats(lo: Seq<u8>, hi: Seq<u8>) -> Result<StatsView, StatisticsError> {
    match (utf8_text(lo), utf8_text(hi)) {
        (Some(a), Some(b)) => Ok(StatsView::Text(a, b)),
        _ => Err(StatisticsError::InvalidUtf8),
    }
}

/// What native statistics convert to: integers widen to 64 bits, 96-bit
/// timestamps become milliseconds, byte strings are read as UTF-8.
pub open spec fn converted(n: NativeStatistics) -> Result<StatsView, StatisticsError> {
    match n {
        NativeStatistics::Boolean(Some(lo), Some(hi)) => Ok(StatsView::Bool(lo, hi)),
        NativeStatistics::Int32(Some(lo), Some(hi)) => Ok(StatsView::Int(lo as i64, hi as i64)),
        NativeStatistics::Int64(Some(lo), Some(hi)) => Ok(StatsView::Int(lo, hi)),
        NativeStatistics::Int96(Some(lo), Some(hi)) => Ok(
            StatsView::Int(int96_millis(lo), int96_millis(hi)),
        ),
        NativeStatistics::Float(Some(lo), Some(hi)) => Ok(StatsView::Float(lo, hi)),
        NativeStatistics::Double(Some(lo), Some(hi)) => Ok(StatsView::Float(lo, hi)),
        NativeStatistics::ByteArray(Some(lo), Some(hi)) => text_stats(lo@, hi@),
        NativeStatistics::FixedLenByteArray(Some(lo), Some(hi)) => text_stats(lo@, hi@),
        _ => Err(StatisticsError::MinMaxNotSet),
    }
}

pub open spec fn result_view(r: Result<TypedStatistics, StatisticsError>) -> Result<StatsView, StatisticsError> {
    match r {
        Ok(s) => Ok(s@),
        Err(e) => Err(e),
    }
}

fn text_from_bytes(lo: &Vec<u8>, hi: &Vec<u8>) -> (r: Result<TypedStatistics, StatisticsError>)
    ensures
        result_view(r) == text_stats(lo@, hi@),
{
    match (bytes_as_utf8(lo), bytes_as_utf8(hi)) {
        (Some(min), Some(max)) => Ok(TypedStatistics::String(Utf8Type { min, max })),
        _ => Err(StatisticsError::InvalidUtf8),
    }
}

impl TypedStatistics {
    /// Reads native per-column statistics; fails where a bound is missing
    /// or a byte-string bound is not UTF-8.
    pub fn try_from(value: &NativeStatistics) -> (r: Result<TypedStatistics, StatisticsError>)
        ensures
            result_view(r) == converted(*value),
            !value.has_min_max() ==> r == Err::<TypedStatistics, StatisticsError>(
                StatisticsError::MinMaxNotSet,
            ),
    {
        match value {
            NativeStatistics::Boolean(Some(lo), Some(hi)) => Ok(
                TypedStatistics::Bool(BoolType { min: *lo, max: *hi }),
            ),
            NativeStatistics::Int32(Some(lo), Some(hi)) => Ok(
                TypedStatistics::Int(Int64Type { min: *lo as i64, max: *hi as i64 }),
            ),
            NativeStatistics::Int64(Some(lo), Some(hi)) => Ok(
                TypedStatistics::Int(Int64Type { min: *lo, max: *hi }),
            ),
            NativeStatistics::Int96(Some(lo), Some(hi)) => Ok(
                TypedStatistics::Int(Int64Type { min: int96_to_millis(lo), max: int96_to_millis(hi) }),
            ),
            NativeStatistics::Float(Some(lo), Some(hi)) => Ok(
                TypedStatistics::Float(Float64Type { min: *lo, max: *hi }),
            ),
            NativeStatistics::Double(Some(lo), Some(hi)) => Ok(
                TypedStatistics::Float(Float64Type { min: *lo, max: *hi }),
            ),
            NativeStatistics::ByteArray(Some(lo), Some(hi)) => text_from_bytes(lo, hi),
            NativeStatistics::FixedLenByteArray(Some(lo), Some(hi)) => text_from_bytes(lo, hi),
            _ => Err(StatisticsError::MinMaxNotSet),
        }
    }
}

/// Statistics and sizes of one column in one file.
#[derive(Clone, Debug, PartialEq, Eq)]
pub struct Column {
    pub name: String,
    pub stats: Option<TypedStatistics>,
    pub uncompressed_size: u64,
    pub compressed_size: u64,
}

impl Column {
    /// Builds the entry of a column from the file's native statistics, if it
    /// has any; a failure to read them is handed back, not hidden.
    pub fn from_native(
        name: String,
        native: Option<&NativeStatistics>,
        uncompressed_size: u64,
        compressed_size: u64,
    ) -> (r: Result<Column, StatisticsError>)
        ensures
            match native {
                None => r matches Ok(c) && c.stats is None,
                Some(n) => match (r, converted(*n)) {
                    (Ok(c), Ok(v)) => c.stats matches Some(s) && s@ == v,
                    (Err(e), Err(f)) => e == f,
                    _ => false,
                },
            },
            r matches Ok(c) ==> c.name == name && c.uncompressed_size == uncompressed_size
                && c.compressed_size == compressed_size,
    {
        let stats = match native {
            None => None,
            Some(n) => match TypedStatistics::try_from(n) {
                Ok(s) => Some(s),
                Err(e) => {
                    return Err(e);
                },
            },
        };
        Ok(Column { name, stats, uncompressed_size, compressed_size })
    }
}

} // verus!
