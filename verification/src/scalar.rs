//! Scalar values carried by rows.
use vstd::prelude::*;

verus! {

/// A single value. `Unknown` is the null placeholder stored inside containers such as lists.
/// Floating point values are carried by their IEEE-754 bit pattern; arithmetic on them is done
/// outside this library.
#[derive(Debug, Hash)]
pub enum ScalarValue {
    Unknown,
    Bool(bool),
    Integer(i64),
    Float(u64),
    String(String),
    List(Vec<ScalarValue>),
    /// A node of the store, by its id.
    VirtualNode(u64),
}

/// A value that may be absent (`None` is `NULL`).
pub type Datum = Option<ScalarValue>;

/// Mathematical model of a scalar value.
pub enum ScalarModel {
    Unknown,
    Bool(bool),
    Integer(i64),
    Float(u64),
    String(Seq<char>),
    List(Seq<ScalarModel>),
    VirtualNode(u64),
}

impl ScalarValue {
    pub open spec fn model(self) -> ScalarModel
        decreases self,
    {
        match self {
            ScalarValue::Unknown => ScalarModel::Unknown,
            ScalarValue::Bool(b) => ScalarModel::Bool(b),
            ScalarValue::Integer(i) => ScalarModel::Integer(i),
            ScalarValue::Float(f) => ScalarModel::Float(f),
            ScalarValue::String(s) => ScalarModel::String(s@),
            ScalarValue::List(items) => ScalarModel::List(items_model(items@)),
            ScalarValue::VirtualNode(id) => ScalarModel::VirtualNode(id),
        }
    }
}

/// Model of a sequence of values, in order.
pub open spec fn items_model(items: Seq<ScalarValue>) -> Seq<ScalarModel>
    decreases items,
{
    if items.len() == 0 {
        Seq::empty()
    } else {
        items_model(items.drop_last()).push(items.last().model())
    }
}

impl View for ScalarValue {
    type V = ScalarModel;

    open spec fn view(&self) -> ScalarModel {
        self.model()
    }
}

pub open spec fn datum_model(d: Datum) -> Option<ScalarModel> {
    match d {
        Some(v) => Some(v@),
        None => None,
    }
}

pub proof fn lemma_items_model(items: Seq<ScalarValue>)
    ensures
        items_model(items).len() == items.len(),
        forall|i: int| 0 <= i < items.len() ==> #[trigger] items_model(items)[i] == items[i]@,
    decreases items.len(),
{
    if items.len() > 0 {
        lemma_items_model(items.drop_last());
    }
}

/// Two sequences of values with the same element models have the same model.
pub proof fn lemma_items_model_ext(a: Seq<ScalarValue>, b: Seq<ScalarValue>)
    requires
        a.len() == b.len(),
        forall|i: int| 0 <= i < a.len() ==> (#[trigger] a[i])@ == b[i]@,
    ensures
        items_model(a) == items_model(b),
{
    lemma_items_model(a);
    lemma_items_model(b);
    assert(items_model(a) =~= items_model(b));
}

impl ScalarValue {
    /// A copy of this value, list elements included.
    pub fn duplicate(&self) -> (r: ScalarValue)
        ensures
            r@ == self@,
        decreases self,
    {
        match self {
            ScalarValue::Unknown => ScalarValue::Unknown,
            ScalarValue::Bool(b) => ScalarValue::Bool(*b),
            ScalarValue::Integer(i) => ScalarValue::Integer(*i),
            ScalarValue::Float(f) => ScalarValue::Float(*f),
            ScalarValue::VirtualNode(id) => ScalarValue::VirtualNode(*id),
            ScalarValue::String(s) => ScalarValue::String(s.clone()),
            ScalarValue::List(items) => {
                let mut out: Vec<ScalarValue> = Vec::new();
                let mut i: usize = 0;
                while i < items.len()
                    invariant
                        i <= items.len(),
                        *self == ScalarValue::List(*items),
                        out.len() == i,
                        forall|j: int| 0 <= j < i ==> (#[trigger] out@[j])@ == items@[j]@,
                    decreases items.len() - i,
                {
                    proof {
                        broadcast use vstd::std_specs::vec::axiom_vec_decreases_to_view;
                        broadcast use vstd::seq::axiom_seq_index_decreases;
                        assert(*self is List);
                        assert(decreases_to!(*self => (*self)->List_0));
                        assert(decreases_to!(*items => items@));
                        assert(decreases_to!(items@ => items@[i as int]));
                    }
                    let v = items[i].duplicate();
                    out.push(v);
                    i = i + 1;
                }
                proof {
                    lemma_items_model_ext(out@, items@);
                }
                ScalarValue::List(out)
            },
        }
    }
}

/// A copy of a sequence of values.
pub fn duplicate_items(items: &[ScalarValue]) -> (r: Vec<ScalarValue>)
    ensures
        r@.len() == items@.len(),
        forall|j: int| 0 <= j < items@.len() ==> (#[trigger] r@[j])@ == items@[j]@,
        items_model(r@) == items_model(items@),
{
    let mut out: Vec<ScalarValue> = Vec::new();
    let mut i: usize = 0;
    while i < items.len()
        invariant
            i <= items@.len(),
            out.len() == i,
            forall|j: int| 0 <= j < i ==> (#[trigger] out@[j])@ == items@[j]@,
        decreases items@.len() - i,
    {
        out.push(items[i].duplicate());
        i = i + 1;
    }
    proof {
        lemma_items_model_ext(out@, items@);
    }
    out
}

impl ScalarValue {
    /// Whether two values are the same, list elements compared one by one and floats by their bits.
    pub fn same_as(&self, other: &ScalarValue) -> (r: bool)
        ensures
            r == (self@ == other@),
        decreases self,
    {
        match (self, other) {
            (ScalarValue::Unknown, ScalarValue::Unknown) => true,
            (ScalarValue::Bool(a), ScalarValue::Bool(b)) => *a == *b,
            (ScalarValue::Integer(a), ScalarValue::Integer(b)) => *a == *b,
            (ScalarValue::Float(a), ScalarValue::Float(b)) => *a == *b,
            (ScalarValue::VirtualNode(a), ScalarValue::VirtualNode(b)) => *a == *b,
            (ScalarValue::String(a), ScalarValue::String(b)) => *a == *b,
            (ScalarValue::List(a), ScalarValue::List(b)) => {
                proof {
                    lemma_items_model(a@);
                    lemma_items_model(b@);
                }
                if a.len() != b.len() {
                    return false;
                }
                let mut i: usize = 0;
                while i < a.len()
                    invariant
                        i <= a.len(),
                        a.len() == b.len(),
                        *self == ScalarValue::List(*a),
                        *other == ScalarValue::List(*b),
                        items_model(a@).len() == a@.len(),
                        items_model(b@).len() == b@.len(),
                        forall|k: int| 0 <= k < a@.len() ==> #[trigger] items_model(a@)[k] == a@[k]@,
                        forall|k: int| 0 <= k < b@.len() ==> #[trigger] items_model(b@)[k] == b@[k]@,
                        forall|k: int| 0 <= k < i ==> (#[trigger] a@[k])@ == b@[k]@,
                    decreases a.len() - i,
                {
                    proof {
                        broadcast use vstd::std_specs::vec::axiom_vec_decreases_to_view;
                        broadcast use vstd::seq::axiom_seq_index_decreases;
                        assert(decreases_to!(*self => (*self)->List_0));
                        assert(decreases_to!(*a => a@));
                        assert(decreases_to!(a@ => a@[i as int]));
                    }
                    if !a[i].same_as(&b[i]) {
                        assert(items_model(a@)[i as int] != items_model(b@)[i as int]);
                        return false;
                    }
                    i = i + 1;
                }
                assert(items_model(a@) =~= items_model(b@));
                true
            },
            _ => false,
        }
    }
}

/// Model of a sequence of datums.
pub open spec fn datums_model(d: Seq<Datum>) -> Seq<Option<ScalarModel>> {
    d.map_values(|x: Datum| datum_model(x))
}

/// Whether two datums are the same: both missing, or two values that are the same.
pub fn same_datum(a: &Datum, b: &Datum) -> (r: bool)
    ensures
        r == (datum_model(*a) == datum_model(*b)),
{
    match (a, b) {
        (None, None) => true,
        (Some(x), Some(y)) => x.same_as(y),
        _ => false,
    }
}

/// Whether two sequences of datums are the same, position by position.
pub fn same_datums(a: &[Datum], b: &[Datum]) -> (r: bool)
    ensures
        r == (datums_model(a@) == datums_model(b@)),
{
    if a.len() != b.len() {
        assert(datums_model(a@).len() != datums_model(b@).len());
        return false;
    }
    let mut i: usize = 0;
    while i < a.len()
        invariant
            i <= a@.len(),
            a@.len() == b@.len(),
            forall|k: int| 0 <= k < i ==> datum_model(#[trigger] a@[k]) == datum_model(b@[k]),
        decreases a@.len() - i,
    {
        if !same_datum(&a[i], &b[i]) {
            assert(datums_model(a@)[i as int] != datums_model(b@)[i as int]);
            return false;
        }
        i = i + 1;
    }
    assert(datums_model(a@) =~= datums_model(b@));
    true
}

/// A copy of a datum.
pub fn duplicate_datum(d: &Datum) -> (r: Datum)
    ensures
        datum_model(r) == datum_model(*d),
{
    match d {
        Some(v) => Some(v.duplicate()),
        None => None,
    }
}

/// A copy of a sequence of datums.
pub fn duplicate_datums(row: &[Datum]) -> (r: Vec<Datum>)
    ensures
        datums_model(r@) == datums_model(row@),
{
    let mut out: Vec<Datum> = Vec::new();
    let mut i: usize = 0;
    while i < row.len()
        invariant
            i <= row@.len(),
            out@.len() == i,
            forall|j: int| 0 <= j < i ==> datum_model(#[trigger] out@[j]) == datum_model(row@[j]),
        decreases row@.len() - i,
    {
        out.push(duplicate_datum(&row[i]));
        i = i + 1;
    }
    assert(datums_model(out@) =~= datums_model(row@));
    out
}

/// The bits of the NaN that stands for every NaN when values are compared.
pub const CANONICAL_NAN_BITS: u64 = 0x7FF8_0000_0000_0000u64;

/// The exponent bits of an IEEE-754 double.
pub const EXPONENT_BITS: u64 = 0x7FF0_0000_0000_0000u64;

/// The mantissa bits of an IEEE-754 double.
pub const MANTISSA_BITS: u64 = 0x000F_FFFF_FFFF_FFFFu64;

/// Whether the double with these bits is a NaN.
pub open spec fn is_nan_bits(b: u64) -> bool {
    b & EXPONENT_BITS == EXPONENT_BITS && b & MANTISSA_BITS != 0
}

/// Whether the double with these bits is `0.0` or `-0.0`.
pub open spec fn is_zero_bits(b: u64) -> bool {
    b & MANTISSA_BITS == 0 && b & EXPONENT_BITS == 0
}

/// The representative of the doubles that compare equal to the one with bits `b`, NaN counting as
/// equal to NaN: every NaN is one NaN, and both zeros are `0.0`. Two doubles are equal in this
/// sense exactly when their representatives are the same bits.
pub open spec fn canon_bits(b: u64) -> u64 {
    if is_nan_bits(b) {
        CANONICAL_NAN_BITS
    } else if is_zero_bits(b) {
        0
    } else {
        b
    }
}

/// The representative of the values equal to `m`: floats replaced by their representatives, list
/// elements included. Two values are equal, as values compare when rows are grouped or told apart,
/// exactly when their representatives are the same.
pub open spec fn canon(m: ScalarModel) -> ScalarModel
    decreases m,
{
    match m {
        ScalarModel::Float(b) => ScalarModel::Float(canon_bits(b)),
        ScalarModel::List(items) => ScalarModel::List(canon_items(items)),
        _ => m,
    }
}

pub open spec fn canon_items(items: Seq<ScalarModel>) -> Seq<ScalarModel>
    decreases items,
{
    if items.len() == 0 {
        Seq::empty()
    } else {
        canon_items(items.drop_last()).push(canon(items.last()))
    }
}

pub open spec fn canon_datum(d: Option<ScalarModel>) -> Option<ScalarModel> {
    match d {
        Some(v) => Some(canon(v)),
        None => None,
    }
}

/// The representatives of a row of datums.
pub open spec fn canon_datums(d: Seq<Option<ScalarModel>>) -> Seq<Option<ScalarModel>> {
    d.map_values(|x: Option<ScalarModel>| canon_datum(x))
}

pub proof fn lemma_canon_items(items: Seq<ScalarModel>)
    ensures
        canon_items(items).len() == items.len(),
        forall|i: int| 0 <= i < items.len() ==> #[trigger] canon_items(items)[i] == canon(items[i]),
    decreases items.len(),
{
    if items.len() > 0 {
        lemma_canon_items(items.drop_last());
    }
}

fn canonical_bits(b: u64) -> (r: u64)
    ensures
        r == canon_bits(b),
{
    if b & EXPONENT_BITS == EXPONENT_BITS && b & MANTISSA_BITS != 0 {
        CANONICAL_NAN_BITS
    } else if b & MANTISSA_BITS == 0 && b & EXPONENT_BITS == 0 {
        0
    } else {
        b
    }
}

impl ScalarValue {
    /// The representative of this value (see `canon`).
    pub fn canonical(&self) -> (r: ScalarValue)
        ensures
            r@ == canon(self@),
        decreases self,
    {
        match self {
            ScalarValue::Float(f) => ScalarValue::Float(canonical_bits(*f)),
            ScalarValue::List(items) => {
                let mut out: Vec<ScalarValue> = Vec::new();
                let mut i: usize = 0;
                while i < items.len()
                    invariant
                        i <= items.len(),
                        *self == ScalarValue::List(*items),
                        out.len() == i,
                        forall|j: int| 0 <= j < i ==> (#[trigger] out@[j])@ == canon(items@[j]@),
                    decreases items.len() - i,
                {
                    proof {
                        broadcast use vstd::std_specs::vec::axiom_vec_decreases_to_view;
                        broadcast use vstd::seq::axiom_seq_index_decreases;
                        assert(*self is List);
                        assert(decreases_to!(*self => (*self)->List_0));
                        assert(decreases_to!(*items => items@));
                        assert(decreases_to!(items@ => items@[i as int]));
                    }
                    let v = items[i].canonical();
                    out.push(v);
                    i = i + 1;
                }
                proof {
                    lemma_items_model(out@);
                    lemma_items_model(items@);
                    lemma_canon_items(items_model(items@));
                    assert(items_model(out@) =~= canon_items(items_model(items@)));
                }
                ScalarValue::List(out)
            },
            _ => self.duplicate(),
        }
    }
}

/// The representatives of a row of datums.
pub fn canonical_datums(row: &[Datum]) -> (r: Vec<Datum>)
    ensures
        datums_model(r@) == canon_datums(datums_model(row@)),
{
    let mut out: Vec<Datum> = Vec::new();
    let mut i: usize = 0;
    while i < row.len()
        invariant
            i <= row@.len(),
            out@.len() == i,
            forall|j: int| 0 <= j < i ==> datum_model(#[trigger] out@[j]) == canon_datum(datum_model(row@[j])),
        decreases row@.len() - i,
    {
        let d = match &row[i] {
            Some(v) => Some(v.canonical()),
            None => None,
        };
        out.push(d);
        i = i + 1;
    }
    assert(datums_model(out@) =~= canon_datums(datums_model(row@)));
    out
}

/// Whether two rows of datums are equal as rows compare when they are grouped or told apart: each
/// value equal to the one at the same position, NaN equal to NaN and `0.0` to `-0.0`.
pub fn equal_datums(a: &[Datum], b: &[Datum]) -> (r: bool)
    ensures
        r == (canon_datums(datums_model(a@)) == canon_datums(datums_model(b@))),
{
    let ca = canonical_datums(a);
    let cb = canonical_datums(b);
    same_datums(ca.as_slice(), cb.as_slice())
}

/// The decimal digits of a natural number, most significant first.
pub open spec fn digits(n: nat) -> Seq<char>
    decreases n,
{
    if n < 10 {
        seq![digit_char(n)]
    } else {
        digits(n / 10).push(digit_char(n % 10))
    }
}

pub open spec fn digit_char(d: nat) -> char {
    if d == 0 { '0' } else if d == 1 { '1' } else if d == 2 { '2' } else if d == 3 { '3' } else if d == 4 {
        '4'
    } else if d == 5 { '5' } else if d == 6 { '6' } else if d == 7 { '7' } else if d == 8 { '8' } else { '9' }
}

/// The decimal text of an integer, with a leading `-` for negative numbers.
pub open spec fn decimal(n: int) -> Seq<char> {
    if n < 0 {
        seq!['-'] + digits((-n) as nat)
    } else {
        digits(n as nat)
    }
}

fn digit_text(d: u64) -> (r: &'static str)
    requires
        d < 10,
    ensures
        r@ == seq![digit_char(d as nat)],
{
    proof {
        reveal_strlit("0");
        reveal_strlit("1");
        reveal_strlit("2");
        reveal_strlit("3");
        reveal_strlit("4");
        reveal_strlit("5");
        reveal_strlit("6");
        reveal_strlit("7");
        reveal_strlit("8");
        reveal_strlit("9");
    }
    if d == 0 { "0" } else if d == 1 { "1" } else if d == 2 { "2" } else if d == 3 { "3" } else if d == 4 {
        "4"
    } else if d == 5 { "5" } else if d == 6 { "6" } else if d == 7 { "7" } else if d == 8 { "8" } else { "9" }
}

/// The decimal text of `n`.
pub fn unsigned_text(n: u64) -> (r: String)
    ensures
        r@ == digits(n as nat),
    decreases n,
{
    if n < 10 {
        String::from_str(digit_text(n))
    } else {
        let mut s = unsigned_text(n / 10);
        s.append(digit_text(n % 10));
        s
    }
}

/// The decimal text of `n`, as `to_string` writes it.
pub fn integer_text(n: i64) -> (r: String)
    ensures
        r@ == decimal(n as int),
{
    if n < 0 {
        let magnitude: u64 = if n == i64::MIN {
            9223372036854775808u64
        } else {
            (-n) as u64
        };
        let mut s = String::from_str("-");
        proof {
            reveal_strlit("-");
        }
        let d = unsigned_text(magnitude);
        s.append(d.as_str());
        s
    } else {
        unsigned_text(n as u64)
    }
}


/// How rows are told apart on a double: two doubles are the same exactly when they have the same
/// bits, or are both NaN, or are both zeros (`0.0` and `-0.0`). So two doubles that differ in any
/// other way, `1.0` and `-1.0` among them, stay apart.
pub proof fn law_canon_bits_equal(a: u64, b: u64)
    ensures
        (canon_bits(a) == canon_bits(b)) <==> (a == b || (a & 0x7FF0_0000_0000_0000u64 == 0x7FF0_0000_0000_0000u64
            && a & 0x000F_FFFF_FFFF_FFFFu64 != 0u64 && b & 0x7FF0_0000_0000_0000u64 == 0x7FF0_0000_0000_0000u64
            && b & 0x000F_FFFF_FFFF_FFFFu64 != 0u64) || (a & 0x7FFF_FFFF_FFFF_FFFFu64 == 0u64 && b
            & 0x7FFF_FFFF_FFFF_FFFFu64 == 0u64)),
        !(a & 0x7FF0_0000_0000_0000u64 == 0x7FF0_0000_0000_0000u64 && a & 0x000F_FFFF_FFFF_FFFFu64 != 0u64) && a
            & 0x7FFF_FFFF_FFFF_FFFFu64 != 0u64 ==> canon_bits(a) == a,
{
    assert((canon_bits(a) == canon_bits(b)) <==> (a == b || (a & 0x7FF0_0000_0000_0000u64 == 0x7FF0_0000_0000_0000u64
        && a & 0x000F_FFFF_FFFF_FFFFu64 != 0u64 && b & 0x7FF0_0000_0000_0000u64 == 0x7FF0_0000_0000_0000u64 && b
        & 0x000F_FFFF_FFFF_FFFFu64 != 0u64) || (a & 0x7FFF_FFFF_FFFF_FFFFu64 == 0u64 && b & 0x7FFF_FFFF_FFFF_FFFFu64
        == 0u64))) by (bit_vector);
    assert(!(a & 0x7FF0_0000_0000_0000u64 == 0x7FF0_0000_0000_0000u64 && a & 0x000F_FFFF_FFFF_FFFFu64 != 0u64) && a
        & 0x7FFF_FFFF_FFFF_FFFFu64 != 0u64 ==> canon_bits(a) == a) by (bit_vector);
}


/// Only doubles have other values equal to them: every value that is not a double, nor a list,
/// stands for itself, and a list stands for the list of its elements' representatives.
pub proof fn law_canon_values(m: ScalarModel)
    ensures
        !(m is Float) && !(m is List) ==> canon(m) == m,
        m matches ScalarModel::List(items) ==> canon(m) matches ScalarModel::List(c) && c.len() == items.len()
            && forall|i: int| 0 <= i < items.len() ==> #[trigger] c[i] == canon(items[i]),
        m matches ScalarModel::Float(b) ==> canon(m) == ScalarModel::Float(canon_bits(b)),
{
    if let ScalarModel::List(items) = m {
        lemma_canon_items(items);
    }
}

} // verus!
