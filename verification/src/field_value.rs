//! Field values and the byte buffers that hold string fields.

use minivec::MiniVec;
use vstd::prelude::*;

verus! {

/// `minivec::MiniVec`: a vector whose handle is one pointer wide. What it
/// holds is seen through `minivec_bytes` only.
#[verifier::external_type_specification]
#[verifier::external_body]
#[verifier::reject_recursive_types(T)]
pub struct ExMiniVec<T>(MiniVec<T>);

/// The bytes that a buffer holds, first to last.
pub uninterp spec fn minivec_bytes(v: MiniVec<u8>) -> Seq<u8>;

/// `MiniVec::from(&[u8])`: the new buffer holds a copy of each byte of the
/// slice, in the slice's order.
#[verifier::external_body]
pub(crate) fn bytes_from_slice(s: &[u8]) -> (v: MiniVec<u8>)
    ensures
        minivec_bytes(v) == s@,
{
    MiniVec::from(s)
}

/// `MiniVec::clone`: the copy holds the same bytes in the same order.
#[verifier::external_body]
pub(crate) fn bytes_clone(v: &MiniVec<u8>) -> (r: MiniVec<u8>)
    ensures
        minivec_bytes(r) == minivec_bytes(*v),
{
    v.clone()
}

/// `MiniVec::capacity`: the number of elements the allocation has room for,
/// which is never below the number it holds.
#[verifier::external_body]
pub(crate) fn bytes_capacity(v: &MiniVec<u8>) -> (c: usize)
    ensures
        c >= minivec_bytes(*v).len(),
{
    v.capacity()
}

/// `MiniVec == MiniVec`: slice equality, so the buffers are equal exactly
/// when they hold the same bytes.
#[verifier::external_body]
pub(crate) fn bytes_eq(a: &MiniVec<u8>, b: &MiniVec<u8>) -> (r: bool)
    ensures
        r == (minivec_bytes(*a) == minivec_bytes(*b)),
{
    a == b
}

/// One value of a field. A floating-point value is carried as its IEEE-754
/// binary64 bit pattern: the buffer stores and moves such values and never
/// computes on them.
#[derive(Debug)]
pub enum FieldVal {
    Float(u64),
    Integer(i64),
    Unsigned(u64),
    Boolean(bool),
    Bytes(MiniVec<u8>),
}

/// What a `FieldVal` stands for.
pub enum FieldValView {
    Float(u64),
    Integer(i64),
    Unsigned(u64),
    Boolean(bool),
    Bytes(Seq<u8>),
}

impl View for FieldVal {
    type V = FieldValView;

    open spec fn view(&self) -> FieldValView {
        match *self {
            FieldVal::Float(b) => FieldValView::Float(b),
            FieldVal::Integer(i) => FieldValView::Integer(i),
            FieldVal::Unsigned(u) => FieldValView::Unsigned(u),
            FieldVal::Boolean(b) => FieldValView::Boolean(b),
            FieldVal::Bytes(v) => FieldValView::Bytes(minivec_bytes(v)),
        }
    }
}

/// A field value stamped with the time of the row it was read from.
#[derive(Debug)]
pub enum DataType {
    U64(i64, u64),
    I64(i64, i64),
    Str(i64, MiniVec<u8>),
    F64(i64, u64),
    Bool(i64, bool),
    Null(i64),
}

/// What a `DataType` stands for.
pub enum DataTypeView {
    U64(i64, u64),
    I64(i64, i64),
    Str(i64, Seq<u8>),
    F64(i64, u64),
    Bool(i64, bool),
    Null(i64),
}

impl View for DataType {
    type V = DataTypeView;

    open spec fn view(&self) -> DataTypeView {
        match *self {
            DataType::U64(t, v) => DataTypeView::U64(t, v),
            DataType::I64(t, v) => DataTypeView::I64(t, v),
            DataType::Str(t, v) => DataTypeView::Str(t, minivec_bytes(v)),
            DataType::F64(t, v) => DataTypeView::F64(t, v),
            DataType::Bool(t, v) => DataTypeView::Bool(t, v),
            DataType::Null(t) => DataTypeView::Null(t),
        }
    }
}

/// The stamped form of the value `v` read at time `ts`.
pub open spec fn stamped(v: FieldValView, ts: i64) -> DataTypeView {
    match v {
        FieldValView::Float(b) => DataTypeView::F64(ts, b),
        FieldValView::Integer(i) => DataTypeView::I64(ts, i),
        FieldValView::Unsigned(u) => DataTypeView::U64(ts, u),
        FieldValView::Boolean(b) => DataTypeView::Bool(ts, b),
        FieldValView::Bytes(s) => DataTypeView::Str(ts, s),
    }
}

/// The view of an optional field value.
pub open spec fn opt_view(o: Option<FieldVal>) -> Option<FieldValView> {
    match o {
        Some(v) => Some(v@),
        None => None,
    }
}

/// The view of a row's field vector.
pub open spec fn fields_view(s: Seq<Option<FieldVal>>) -> Seq<Option<FieldValView>> {
    Seq::new(s.len(), |i: int| opt_view(s[i]))
}

impl FieldVal {
    /// A string field made of the given bytes.
    pub fn from_bytes(s: &[u8]) -> (r: FieldVal)
        ensures
            r@ == FieldValView::Bytes(s@),
    {
        FieldVal::Bytes(bytes_from_slice(s))
    }

    /// A copy that stands for the same value.
    pub fn duplicate(&self) -> (r: FieldVal)
        ensures
            r@ == self@,
    {
        match self {
            FieldVal::Float(b) => FieldVal::Float(*b),
            FieldVal::Integer(i) => FieldVal::Integer(*i),
            FieldVal::Unsigned(u) => FieldVal::Unsigned(*u),
            FieldVal::Boolean(b) => FieldVal::Boolean(*b),
            FieldVal::Bytes(v) => FieldVal::Bytes(bytes_clone(v)),
        }
    }

    /// Whether two values stand for the same thing.
    pub fn same(&self, other: &FieldVal) -> (r: bool)
        ensures
            r == (self@ == other@),
    {
        match (self, other) {
            (FieldVal::Float(a), FieldVal::Float(b)) => *a == *b,
            (FieldVal::Integer(a), FieldVal::Integer(b)) => *a == *b,
            (FieldVal::Unsigned(a), FieldVal::Unsigned(b)) => *a == *b,
            (FieldVal::Boolean(a), FieldVal::Boolean(b)) => *a == *b,
            (FieldVal::Bytes(a), FieldVal::Bytes(b)) => bytes_eq(a, b),
            _ => false,
        }
    }

    /// Bytes held on the heap: the allocation of a string field, nothing for
    /// the other kinds.
    pub fn heap_size(&self) -> (n: usize)
        ensures
            match self@ {
                FieldValView::Bytes(s) => n >= s.len(),
                _ => n == 0,
            },
    {
        match self {
            FieldVal::Bytes(v) => bytes_capacity(v),
            _ => 0,
        }
    }

    /// The value stamped with the time `ts`.
    pub fn data_value(&self, ts: i64) -> (r: DataType)
        ensures
            r@ == stamped(self@, ts),
    {
        match self {
            FieldVal::Float(b) => DataType::F64(ts, *b),
            FieldVal::Integer(i) => DataType::I64(ts, *i),
            FieldVal::Unsigned(u) => DataType::U64(ts, *u),
            FieldVal::Boolean(b) => DataType::Bool(ts, *b),
            FieldVal::Bytes(v) => DataType::Str(ts, bytes_clone(v)),
        }
    }
}

impl Clone for FieldVal {
    fn clone(&self) -> (r: FieldVal)
        ensures
            r@ == self@,
    {
        self.duplicate()
    }
}

impl PartialEq for FieldVal {
    fn eq(&self, other: &FieldVal) -> (r: bool) {
        self.same(other)
    }
}

impl Eq for FieldVal {

}

impl vstd::std_specs::cmp::PartialEqSpecImpl for FieldVal {
    open spec fn obeys_eq_spec() -> bool {
        true
    }

    open spec fn eq_spec(&self, other: &FieldVal) -> bool {
        self@ == other@
    }
}

impl DataType {
    /// A copy that stands for the same stamped value.
    pub fn duplicate(&self) -> (r: DataType)
        ensures
            r@ == self@,
    {
        match self {
            DataType::U64(t, v) => DataType::U64(*t, *v),
            DataType::I64(t, v) => DataType::I64(*t, *v),
            DataType::Str(t, v) => DataType::Str(*t, bytes_clone(v)),
            DataType::F64(t, v) => DataType::F64(*t, *v),
            DataType::Bool(t, v) => DataType::Bool(*t, *v),
            DataType::Null(t) => DataType::Null(*t),
        }
    }

    /// Whether two stamped values stand for the same thing.
    pub fn same(&self, other: &DataType) -> (r: bool)
        ensures
            r == (self@ == other@),
    {
        match (self, other) {
            (DataType::U64(s, a), DataType::U64(t, b)) => *s == *t && *a == *b,
            (DataType::I64(s, a), DataType::I64(t, b)) => *s == *t && *a == *b,
            (DataType::Str(s, a), DataType::Str(t, b)) => *s == *t && bytes_eq(a, b),
            (DataType::F64(s, a), DataType::F64(t, b)) => *s == *t && *a == *b,
            (DataType::Bool(s, a), DataType::Bool(t, b)) => *s == *t && *a == *b,
            (DataType::Null(s), DataType::Null(t)) => *s == *t,
            _ => false,
        }
    }
}

impl Clone for DataType {
    fn clone(&self) -> (r: DataType)
        ensures
            r@ == self@,
    {
        self.duplicate()
    }
}

impl PartialEq for DataType {
    fn eq(&self, other: &DataType) -> (r: bool) {
        self.same(other)
    }
}

impl Eq for DataType {

}

impl vstd::std_specs::cmp::PartialEqSpecImpl for DataType {
    open spec fn obeys_eq_spec() -> bool {
        true
    }

    open spec fn eq_spec(&self, other: &DataType) -> bool {
        self@ == other@
    }
}

/// A copy of an optional field value.
pub fn duplicate_opt(o: &Option<FieldVal>) -> (r: Option<FieldVal>)
    ensures
        opt_view(r) == opt_view(*o),
{
    match o {
        Some(v) => Some(v.duplicate()),
        None => None,
    }
}

/// A copy of a field vector.
pub fn duplicate_fields(v: &Vec<Option<FieldVal>>) -> (r: Vec<Option<FieldVal>>)
    ensures
        fields_view(r@) == fields_view(v@),
{
    let mut r: Vec<Option<FieldVal>> = Vec::with_capacity(v.len());
    let mut i: usize = 0;
    while i < v.len()
        invariant
            i <= v.len(),
            r.len() == i,
            forall|k: int| 0 <= k < i ==> opt_view(#[trigger] r[k]) == opt_view(v[k]),
        decreases v.len() - i,
    {
        r.push(duplicate_opt(&v[i]));
        i += 1;
    }
    r
}

} // verus!
