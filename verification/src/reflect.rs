//! Structural, in-place update of one reflected value from another.
//!
//! A value is described as a tree of [`ReflectValue`] nodes: each node has a
//! type name (two nodes have the same type when their names agree) and its
//! data, which is a scalar, a struct, a tuple struct, a tuple, an enum
//! variant, a list, a fixed-size array, an ordered map, or an opaque value.
//! [`update_reflect`] rewrites an existing tree so that it equals another
//! tree of the same type, touching only what differs, and reports whether
//! anything changed.

use vstd::prelude::*;
use crate::text::{seq_char_lt, lemma_seq_char_lt_irreflexive, lemma_seq_char_lt_trichotomy,
    lemma_seq_char_lt_transitive, str_lt};

verus! {

/// A reflected scalar.
#[derive(Debug, PartialEq)]
pub enum ScalarValue {
    Usize(usize),
    U8(u8),
    U16(u16),
    U32(u32),
    U64(u64),
    U128(u128),
    I8(i8),
    I16(i16),
    I32(i32),
    I64(i64),
    I128(i128),
    Bool(bool),
    Char(char),
    /// An IPv4 address, as its 32-bit number.
    Ipv4Addr(u32),
    /// An IPv6 address, as its 128-bit number.
    Ipv6Addr(u128),
    /// A duration: whole seconds and the nanoseconds below one second.
    Duration(u64, u32),
    String(String),
}

/// The shape of an enum variant.
#[derive(Clone, Copy, Debug, PartialEq, Eq, Structural)]
pub enum VariantKind {
    Unit,
    Tuple,
    Struct,
}

/// One entry of a reflected map.
#[derive(Debug, PartialEq)]
pub struct MapEntry {
    pub key: ReflectValue,
    pub value: ReflectValue,
}

/// The data of a reflected value.
#[derive(Debug, PartialEq)]
pub enum ReflectData {
    Scalar(ScalarValue),
    /// The fields of a struct with named fields, in declaration order.
    Struct(Vec<ReflectValue>),
    TupleStruct(Vec<ReflectValue>),
    Tuple(Vec<ReflectValue>),
    /// An enum value: the variant's name, its shape and its fields.
    Enum(String, VariantKind, Vec<ReflectValue>),
    /// A growable list.
    List(Vec<ReflectValue>),
    /// A fixed-size array.
    Array(Vec<ReflectValue>),
    /// An ordered map, entries in ascending key order.
    Mapping(Vec<MapEntry>),
    /// A value the reflection cannot look into, by its encoding.
    Opaque(Vec<u8>),
}

/// A reflected value: its type's name and its data.
#[derive(Debug, PartialEq)]
pub struct ReflectValue {
    pub type_ident: String,
    pub data: ReflectData,
}

/// Errors of [`update_reflect`].
#[derive(Debug, PartialEq)]
pub enum UpdateError {
    /// Two values of different types met; holds their type names.
    Incompatible { existing: String, update: String },
    /// Two arrays of one type differ in length.
    UnequalArrays,
    /// A map has keys that are not scalars.
    NonScalarKeys,
}

// ---------------------------------------------------------------------
// Mathematical model

/// The mathematical value of a scalar.
pub enum ScalarV {
    Usize(usize),
    U8(u8),
    U16(u16),
    U32(u32),
    U64(u64),
    U128(u128),
    I8(i8),
    I16(i16),
    I32(i32),
    I64(i64),
    I128(i128),
    Bool(bool),
    Char(char),
    Ipv4Addr(u32),
    Ipv6Addr(u128),
    Duration(u64, u32),
    String(Seq<char>),
}

/// The mathematical value of a reflected tree.
pub struct ValueV {
    pub type_ident: Seq<char>,
    pub data: DataV,
}

pub enum DataV {
    Scalar(ScalarV),
    Struct(Seq<ValueV>),
    TupleStruct(Seq<ValueV>),
    Tuple(Seq<ValueV>),
    Enum(Seq<char>, VariantKind, Seq<ValueV>),
    List(Seq<ValueV>),
    Array(Seq<ValueV>),
    Mapping(Seq<(ValueV, ValueV)>),
    Opaque(Seq<u8>),
}

pub open spec fn scalar_view(s: ScalarValue) -> ScalarV {
    match s {
        ScalarValue::Usize(x) => ScalarV::Usize(x),
        ScalarValue::U8(x) => ScalarV::U8(x),
        ScalarValue::U16(x) => ScalarV::U16(x),
        ScalarValue::U32(x) => ScalarV::U32(x),
        ScalarValue::U64(x) => ScalarV::U64(x),
        ScalarValue::U128(x) => ScalarV::U128(x),
        ScalarValue::I8(x) => ScalarV::I8(x),
        ScalarValue::I16(x) => ScalarV::I16(x),
        ScalarValue::I32(x) => ScalarV::I32(x),
        ScalarValue::I64(x) => ScalarV::I64(x),
        ScalarValue::I128(x) => ScalarV::I128(x),
        ScalarValue::Bool(x) => ScalarV::Bool(x),
        ScalarValue::Char(x) => ScalarV::Char(x),
        ScalarValue::Ipv4Addr(x) => ScalarV::Ipv4Addr(x),
        ScalarValue::Ipv6Addr(x) => ScalarV::Ipv6Addr(x),
        ScalarValue::Duration(s, n) => ScalarV::Duration(s, n),
        ScalarValue::String(x) => ScalarV::String(x@),
    }
}

pub open spec fn value_view(v: ReflectValue) -> ValueV
    decreases v, 3nat,
{
    ValueV { type_ident: v.type_ident@, data: data_view(v.data) }
}

pub open spec fn data_view(d: ReflectData) -> DataV
    decreases d, 2nat,
{
    match d {
        ReflectData::Scalar(s) => DataV::Scalar(scalar_view(s)),
        ReflectData::Struct(fs) => DataV::Struct(values_view(fs@)),
        ReflectData::TupleStruct(fs) => DataV::TupleStruct(values_view(fs@)),
        ReflectData::Tuple(fs) => DataV::Tuple(values_view(fs@)),
        ReflectData::Enum(name, kind, fs) => DataV::Enum(name@, kind, values_view(fs@)),
        ReflectData::List(fs) => DataV::List(values_view(fs@)),
        ReflectData::Array(fs) => DataV::Array(values_view(fs@)),
        ReflectData::Mapping(es) => DataV::Mapping(entries_view(es@)),
        ReflectData::Opaque(bytes) => DataV::Opaque(bytes@),
    }
}

pub open spec fn values_view(s: Seq<ReflectValue>) -> Seq<ValueV>
    decreases s, 0nat,
{
    if s.len() == 0 {
        Seq::empty()
    } else {
        values_view(s.subrange(0, s.len() - 1)).push(value_view(s[s.len() - 1]))
    }
}

pub open spec fn entries_view(s: Seq<MapEntry>) -> Seq<(ValueV, ValueV)>
    decreases s, 0nat,
{
    if s.len() == 0 {
        Seq::empty()
    } else {
        let e = s[s.len() - 1];
        entries_view(s.subrange(0, s.len() - 1)).push((value_view(e.key), value_view(e.value)))
    }
}

pub proof fn lemma_values_view(s: Seq<ReflectValue>)
    ensures
        values_view(s).len() == s.len(),
        forall|i: int| 0 <= i < s.len() ==> #[trigger] values_view(s)[i] == value_view(s[i]),
    decreases s.len(),
{
    if s.len() > 0 {
        lemma_values_view(s.subrange(0, s.len() - 1));
    }
}

pub proof fn lemma_entries_view(s: Seq<MapEntry>)
    ensures
        entries_view(s).len() == s.len(),
        forall|i: int|
            0 <= i < s.len() ==> #[trigger] entries_view(s)[i] == (
            value_view(s[i].key),
            value_view(s[i].value),
        ),
    decreases s.len(),
{
    if s.len() > 0 {
        lemma_entries_view(s.subrange(0, s.len() - 1));
    }
}


// ---------------------------------------------------------------------
// Order of map keys

/// Position of a scalar's kind, used to order keys of different kinds.
pub open spec fn scalar_rank(s: ScalarV) -> int {
    match s {
        ScalarV::Usize(_) => 0,
        ScalarV::U8(_) => 1,
        ScalarV::U16(_) => 2,
        ScalarV::U32(_) => 3,
        ScalarV::U64(_) => 4,
        ScalarV::U128(_) => 5,
        ScalarV::I8(_) => 6,
        ScalarV::I16(_) => 7,
        ScalarV::I32(_) => 8,
        ScalarV::I64(_) => 9,
        ScalarV::I128(_) => 10,
        ScalarV::Bool(_) => 11,
        ScalarV::Char(_) => 12,
        ScalarV::Ipv4Addr(_) => 13,
        ScalarV::Ipv6Addr(_) => 14,
        ScalarV::Duration(_, _) => 15,
        ScalarV::String(_) => 16,
    }
}

/// The strict order on scalars: by kind, then by value within a kind.
pub open spec fn scalar_lt(a: ScalarV, b: ScalarV) -> bool {
    if scalar_rank(a) != scalar_rank(b) {
        scalar_rank(a) < scalar_rank(b)
    } else {
        match (a, b) {
            (ScalarV::Usize(x), ScalarV::Usize(y)) => x < y,
            (ScalarV::U8(x), ScalarV::U8(y)) => x < y,
            (ScalarV::U16(x), ScalarV::U16(y)) => x < y,
            (ScalarV::U32(x), ScalarV::U32(y)) => x < y,
            (ScalarV::U64(x), ScalarV::U64(y)) => x < y,
            (ScalarV::U128(x), ScalarV::U128(y)) => x < y,
            (ScalarV::I8(x), ScalarV::I8(y)) => x < y,
            (ScalarV::I16(x), ScalarV::I16(y)) => x < y,
            (ScalarV::I32(x), ScalarV::I32(y)) => x < y,
            (ScalarV::I64(x), ScalarV::I64(y)) => x < y,
            (ScalarV::I128(x), ScalarV::I128(y)) => x < y,
            (ScalarV::Bool(x), ScalarV::Bool(y)) => !x && y,
            (ScalarV::Char(x), ScalarV::Char(y)) => x < y,
            (ScalarV::Ipv4Addr(x), ScalarV::Ipv4Addr(y)) => x < y,
            (ScalarV::Ipv6Addr(x), ScalarV::Ipv6Addr(y)) => x < y,
            (ScalarV::Duration(s1, n1), ScalarV::Duration(s2, n2)) => s1 < s2 || (s1 == s2 && n1
                < n2),
            (ScalarV::String(x), ScalarV::String(y)) => seq_char_lt(x, y),
            _ => false,
        }
    }
}

pub proof fn lemma_scalar_lt_total(a: ScalarV, b: ScalarV)
    ensures
        !scalar_lt(a, a),
        a == b || scalar_lt(a, b) || scalar_lt(b, a),
        !(scalar_lt(a, b) && scalar_lt(b, a)),
{
    match a {
        ScalarV::String(x) => {
            lemma_seq_char_lt_irreflexive(x);
            match b {
                ScalarV::String(y) => lemma_seq_char_lt_trichotomy(x, y),
                _ => {},
            }
        },
        _ => {},
    }
}

pub proof fn lemma_scalar_lt_transitive(a: ScalarV, b: ScalarV, c: ScalarV)
    requires
        scalar_lt(a, b),
        scalar_lt(b, c),
    ensures
        scalar_lt(a, c),
{
    match (a, b, c) {
        (ScalarV::String(x), ScalarV::String(y), ScalarV::String(z)) => {
            lemma_seq_char_lt_transitive(x, y, z);
        },
        _ => {},
    }
}

// ---------------------------------------------------------------------
// Domains of the update

/// What position `i` of a list holds once the list `x` has been brought to
/// the length of `y`: the old element where there was one, else a copy of
/// the new one.
pub open spec fn element_for(x: Seq<ValueV>, y: Seq<ValueV>, i: int) -> ValueV {
    if i < x.len() {
        x[i]
    } else {
        y[i]
    }
}

/// A map key is usable when it is a scalar.
pub open spec fn is_scalar_key(k: ValueV) -> bool {
    k.data is Scalar
}

/// Two map keys are the same key: both scalars, with the same value.
pub open spec fn same_key(k1: ValueV, k2: ValueV) -> bool {
    &&& k1.data is Scalar
    &&& k2.data is Scalar
    &&& k1.data->Scalar_0 == k2.data->Scalar_0
}

pub open spec fn keys_are_scalars(es: Seq<(ValueV, ValueV)>) -> bool {
    forall|i: int| 0 <= i < es.len() ==> #[trigger] is_scalar_key(es[i].0)
}

/// Keys in strictly ascending order.
pub open spec fn keys_ascending(es: Seq<(ValueV, ValueV)>) -> bool {
    forall|i: int, j: int|
        0 <= i < j < es.len() ==> scalar_lt(
            (#[trigger] es[i]).0.data->Scalar_0,
            (#[trigger] es[j]).0.data->Scalar_0,
        )
}

/// No two entries of a map have the same key.
pub open spec fn keys_unique(es: Seq<(ValueV, ValueV)>) -> bool {
    forall|i: int, j: int|
        0 <= i < es.len() && 0 <= j < es.len() && i != j ==> !same_key(
            #[trigger] es[i].0,
            #[trigger] es[j].0,
        )
}

/// Well-formed trees: unit variants have no fields, no two entries of a map
/// have the same key, and maps whose keys are scalars hold them in strictly
/// ascending order (as an ordered map does).
pub open spec fn wf(v: ValueV) -> bool
    decreases v, 0nat,
{
    match v.data {
        DataV::Scalar(_) => true,
        DataV::Opaque(_) => true,
        DataV::Struct(fs) => all_wf(fs),
        DataV::TupleStruct(fs) => all_wf(fs),
        DataV::Tuple(fs) => all_wf(fs),
        DataV::List(fs) => all_wf(fs),
        DataV::Array(fs) => all_wf(fs),
        DataV::Enum(_, kind, fs) => (kind == VariantKind::Unit ==> fs.len() == 0) && all_wf(fs),
        DataV::Mapping(es) => (keys_are_scalars(es) ==> keys_ascending(es)) && keys_unique(es)
            && entries_wf(es),
    }
}

/// Every tree of a sequence is well formed.
pub open spec fn all_wf(s: Seq<ValueV>) -> bool
    decreases s, 0nat,
{
    if s.len() == 0 {
        true
    } else {
        all_wf(s.subrange(0, s.len() - 1)) && wf(s[s.len() - 1])
    }
}

/// Every key and value of a map is well formed.
pub open spec fn entries_wf(s: Seq<(ValueV, ValueV)>) -> bool
    decreases s, 0nat,
{
    if s.len() == 0 {
        true
    } else {
        entries_wf(s.subrange(0, s.len() - 1)) && wf(s[s.len() - 1].0) && wf(s[s.len() - 1].1)
    }
}

/// The relation behind [`well_typed`] (`strict == false`) and
/// [`update_ok`] (`strict == true`).
pub open spec fn relate(a: ValueV, b: ValueV, strict: bool) -> bool
    decreases b, 0nat,
{
    if a.type_ident != b.type_ident {
        !strict
    } else {
        match (a.data, b.data) {
            (DataV::Scalar(x), DataV::Scalar(y)) => !strict || scalar_rank(x) == scalar_rank(y),
            (DataV::Opaque(_), DataV::Opaque(_)) => true,
            (DataV::Struct(x), DataV::Struct(y)) => (strict || x.len() == y.len()) && pairs(
                x,
                y,
                strict,
            ),
            (DataV::TupleStruct(x), DataV::TupleStruct(y)) => (strict || x.len() == y.len())
                && pairs(x, y, strict),
            (DataV::Tuple(x), DataV::Tuple(y)) => (strict || x.len() == y.len()) && pairs(
                x,
                y,
                strict,
            ),
            (DataV::Enum(n1, k1, x), DataV::Enum(n2, k2, y)) => n1 != n2 || ((strict || (k1 == k2
                && x.len() == y.len())) && pairs(x, y, strict)),
            (DataV::List(x), DataV::List(y)) => list_pairs(x, y, strict),
            (DataV::Array(x), DataV::Array(y)) => if strict {
                (x.len() == 0 && y.len() == 0) || (x.len() == y.len() && pairs(x, y, true))
            } else {
                x.len() == y.len() ==> pairs(x, y, false)
            },
            (DataV::Mapping(xs), DataV::Mapping(ys)) => (!strict || (keys_are_scalars(xs)
                && keys_are_scalars(ys))) && map_all(xs, ys, strict),
            _ => false,
        }
    }
}

/// `relate` holds position by position (positions of `ys`).
pub open spec fn pairs(xs: Seq<ValueV>, ys: Seq<ValueV>, strict: bool) -> bool
    decreases ys, 0nat,
{
    if ys.len() == 0 {
        true
    } else {
        pairs(xs, ys.subrange(0, ys.len() - 1), strict) && relate(
            xs[ys.len() - 1],
            ys[ys.len() - 1],
            strict,
        )
    }
}

/// `relate` holds between each position of a list brought to the length of
/// `ys` and the same position of `ys`.
pub open spec fn list_pairs(xs: Seq<ValueV>, ys: Seq<ValueV>, strict: bool) -> bool
    decreases ys, 0nat,
{
    if ys.len() == 0 {
        true
    } else {
        list_pairs(xs, ys.subrange(0, ys.len() - 1), strict) && relate(
            element_for(xs, ys, ys.len() - 1),
            ys[ys.len() - 1],
            strict,
        )
    }
}

/// `map_one` holds for every entry of `ys`.
pub open spec fn map_all(xs: Seq<(ValueV, ValueV)>, ys: Seq<(ValueV, ValueV)>, strict: bool) -> bool
    decreases ys, 0nat,
{
    if ys.len() == 0 {
        true
    } else {
        map_all(xs, ys.subrange(0, ys.len() - 1), strict) && map_one(xs, ys[ys.len() - 1], strict)
    }
}

/// Every entry of `xs` with the key of `y` has a key of the same type and a
/// value related to the value of `y`.
pub open spec fn map_one(xs: Seq<(ValueV, ValueV)>, y: (ValueV, ValueV), strict: bool) -> bool
    decreases y, xs.len(),
{
    if xs.len() == 0 {
        true
    } else {
        map_one(xs.subrange(0, xs.len() - 1), y, strict) && (same_key(xs[xs.len() - 1].0, y.0)
            ==> ((strict || xs[xs.len() - 1].0.type_ident == y.0.type_ident) && relate(
            xs[xs.len() - 1].1,
            y.1,
            strict,
        )))
    }
}

/// Two trees are shaped as values of the same Rust types would be: wherever
/// the update compares two nodes of the same type name, they have the same
/// kind of data; structs and tuples of one type have the same number of
/// fields; one variant of one enum has one shape; keys that meet in two maps
/// of one type are of one type.
pub open spec fn well_typed(a: ValueV, b: ValueV) -> bool {
    relate(a, b, false)
}

/// The inputs on which the update succeeds: the types agree wherever two
/// nodes meet, scalars that meet are of one kind, arrays that meet have one
/// length unless both are empty, and every map key is a scalar.
pub open spec fn update_ok(a: ValueV, b: ValueV) -> bool {
    relate(a, b, true)
}

/// Two scalars of one type name but of different kinds.
pub open spec fn scalar_kinds_differ(a: ValueV, b: ValueV) -> bool {
    a.type_ident == b.type_ident && (a.data matches DataV::Scalar(x) && b.data matches DataV::Scalar(y)
        && scalar_rank(x) != scalar_rank(y))
}

/// Two maps of one type name, one of which has a key that is not a scalar.
pub open spec fn maps_with_non_scalar_keys(a: ValueV, b: ValueV) -> bool {
    a.type_ident == b.type_ident && (a.data matches DataV::Mapping(xs) && b.data matches DataV::Mapping(ys)
        && !(keys_are_scalars(xs) && keys_are_scalars(ys)))
}

/// Two arrays of one type name with different lengths.
pub open spec fn arrays_of_unequal_length(a: ValueV, b: ValueV) -> bool {
    a.type_ident == b.type_ident && (a.data matches DataV::Array(xs) && b.data matches DataV::Array(ys)
        && xs.len() != ys.len())
}

/// Both trees are well formed and typed alike.
pub open spec fn wf_pair(a: ValueV, b: ValueV) -> bool {
    wf(a) && wf(b) && well_typed(a, b)
}

// ---------------------------------------------------------------------
// The recursive predicates, position by position

pub proof fn lemma_all_wf(s: Seq<ValueV>)
    ensures
        all_wf(s) == (forall|i: int| 0 <= i < s.len() ==> #[trigger] wf(s[i])),
    decreases s.len(),
{
    if s.len() > 0 {
        let p = s.subrange(0, s.len() - 1);
        lemma_all_wf(p);
        assert(all_wf(s) == (all_wf(p) && wf(s[s.len() - 1])));
        if forall|i: int| 0 <= i < s.len() ==> #[trigger] wf(s[i]) {
            assert forall|i: int| 0 <= i < p.len() implies #[trigger] wf(p[i]) by {
                assert(p[i] == s[i]);
            }
        }
        if all_wf(s) {
            assert forall|i: int| 0 <= i < s.len() implies #[trigger] wf(s[i]) by {
                if i < s.len() - 1 {
                    assert(p[i] == s[i]);
                }
            }
        }
    }
}

pub proof fn lemma_entries_wf(s: Seq<(ValueV, ValueV)>)
    ensures
        entries_wf(s) == (forall|i: int| 0 <= i < s.len() ==> wf(#[trigger] s[i].0) && wf(s[i].1)),
    decreases s.len(),
{
    if s.len() > 0 {
        let p = s.subrange(0, s.len() - 1);
        lemma_entries_wf(p);
        assert(entries_wf(s) == (entries_wf(p) && wf(s[s.len() - 1].0) && wf(s[s.len() - 1].1)));
        if forall|i: int| 0 <= i < s.len() ==> wf(#[trigger] s[i].0) && wf(s[i].1) {
            assert forall|i: int| 0 <= i < p.len() implies wf(#[trigger] p[i].0) && wf(p[i].1) by {
                assert(p[i] == s[i]);
            }
        }
        if entries_wf(s) {
            assert forall|i: int| 0 <= i < s.len() implies wf(#[trigger] s[i].0) && wf(s[i].1) by {
                if i < s.len() - 1 {
                    assert(p[i] == s[i]);
                }
            }
        }
    }
}

pub proof fn lemma_pairs(xs: Seq<ValueV>, ys: Seq<ValueV>, strict: bool)
    ensures
        pairs(xs, ys, strict) == (forall|i: int|
            0 <= i < ys.len() ==> #[trigger] relate(xs[i], ys[i], strict)),
    decreases ys.len(),
{
    if ys.len() > 0 {
        let p = ys.subrange(0, ys.len() - 1);
        lemma_pairs(xs, p, strict);
        assert(pairs(xs, ys, strict) == (pairs(xs, p, strict) && relate(
            xs[ys.len() - 1],
            ys[ys.len() - 1],
            strict,
        )));
        if forall|i: int| 0 <= i < ys.len() ==> #[trigger] relate(xs[i], ys[i], strict) {
            assert forall|i: int| 0 <= i < p.len() implies #[trigger] relate(xs[i], p[i], strict) by {
                assert(p[i] == ys[i]);
            }
        }
        if pairs(xs, ys, strict) {
            assert forall|i: int| 0 <= i < ys.len() implies #[trigger] relate(xs[i], ys[i], strict) by {
                if i < ys.len() - 1 {
                    assert(p[i] == ys[i]);
                }
            }
        }
    }
}

pub proof fn lemma_list_pairs(xs: Seq<ValueV>, ys: Seq<ValueV>, strict: bool)
    ensures
        list_pairs(xs, ys, strict) == (forall|i: int|
            0 <= i < ys.len() ==> #[trigger] relate(element_for(xs, ys, i), ys[i], strict)),
    decreases ys.len(),
{
    if ys.len() > 0 {
        let p = ys.subrange(0, ys.len() - 1);
        lemma_list_pairs(xs, p, strict);
        assert(list_pairs(xs, ys, strict) == (list_pairs(xs, p, strict) && relate(
            element_for(xs, ys, ys.len() - 1),
            ys[ys.len() - 1],
            strict,
        )));
        if forall|i: int|
            0 <= i < ys.len() ==> #[trigger] relate(element_for(xs, ys, i), ys[i], strict) {
            assert forall|i: int| 0 <= i < p.len() implies #[trigger] relate(
                element_for(xs, p, i),
                p[i],
                strict,
            ) by {
                assert(p[i] == ys[i]);
                assert(element_for(xs, p, i) == element_for(xs, ys, i));
            }
        }
        if list_pairs(xs, ys, strict) {
            assert forall|i: int| 0 <= i < ys.len() implies #[trigger] relate(
                element_for(xs, ys, i),
                ys[i],
                strict,
            ) by {
                if i < ys.len() - 1 {
                    assert(p[i] == ys[i]);
                    assert(element_for(xs, p, i) == element_for(xs, ys, i));
                }
            }
        }
    }
}

/// The condition `map_one` and `map_all` put on one pair of entries.
pub open spec fn entry_related(x: (ValueV, ValueV), y: (ValueV, ValueV), strict: bool) -> bool {
    same_key(x.0, y.0) ==> ((strict || x.0.type_ident == y.0.type_ident) && relate(
        x.1,
        y.1,
        strict,
    ))
}

pub proof fn lemma_map_one(xs: Seq<(ValueV, ValueV)>, y: (ValueV, ValueV), strict: bool)
    ensures
        map_one(xs, y, strict) == (forall|i: int|
            0 <= i < xs.len() ==> #[trigger] entry_related(xs[i], y, strict)),
    decreases xs.len(),
{
    if xs.len() > 0 {
        let p = xs.subrange(0, xs.len() - 1);
        lemma_map_one(p, y, strict);
        assert(map_one(xs, y, strict) == (map_one(p, y, strict) && entry_related(
            xs[xs.len() - 1],
            y,
            strict,
        )));
        if forall|i: int| 0 <= i < xs.len() ==> #[trigger] entry_related(xs[i], y, strict) {
            assert forall|i: int| 0 <= i < p.len() implies #[trigger] entry_related(
                p[i],
                y,
                strict,
            ) by {
                assert(p[i] == xs[i]);
            }
        }
        if map_one(xs, y, strict) {
            assert forall|i: int| 0 <= i < xs.len() implies #[trigger] entry_related(
                xs[i],
                y,
                strict,
            ) by {
                if i < xs.len() - 1 {
                    assert(p[i] == xs[i]);
                }
            }
        }
    }
}

pub proof fn lemma_map_all(xs: Seq<(ValueV, ValueV)>, ys: Seq<(ValueV, ValueV)>, strict: bool)
    ensures
        map_all(xs, ys, strict) == (forall|i: int, j: int|
            0 <= i < xs.len() && 0 <= j < ys.len() ==> #[trigger] entry_related(
                xs[i],
                ys[j],
                strict,
            )),
    decreases ys.len(),
{
    if ys.len() > 0 {
        let p = ys.subrange(0, ys.len() - 1);
        lemma_map_all(xs, p, strict);
        lemma_map_one(xs, ys[ys.len() - 1], strict);
        assert(map_all(xs, ys, strict) == (map_all(xs, p, strict) && map_one(
            xs,
            ys[ys.len() - 1],
            strict,
        )));
        if forall|i: int, j: int|
            0 <= i < xs.len() && 0 <= j < ys.len() ==> #[trigger] entry_related(
                xs[i],
                ys[j],
                strict,
            ) {
            assert forall|i: int, j: int|
                0 <= i < xs.len() && 0 <= j < p.len() implies #[trigger] entry_related(
                xs[i],
                p[j],
                strict,
            ) by {
                assert(p[j] == ys[j]);
            }
            assert forall|i: int| 0 <= i < xs.len() implies #[trigger] entry_related(
                xs[i],
                ys[ys.len() - 1],
                strict,
            ) by {}
        }
        if map_all(xs, ys, strict) {
            assert forall|i: int, j: int|
                0 <= i < xs.len() && 0 <= j < ys.len() implies #[trigger] entry_related(
                xs[i],
                ys[j],
                strict,
            ) by {
                if j < ys.len() - 1 {
                    assert(p[j] == ys[j]);
                }
            }
        }
    }
}

// ---------------------------------------------------------------------
// Scalars

/// The kind position of a scalar, as [`scalar_rank`].
pub fn scalar_rank_of(s: &ScalarValue) -> (r: u8)
    ensures
        r as int == scalar_rank(scalar_view(*s)),
{
    match s {
        ScalarValue::Usize(_) => 0,
        ScalarValue::U8(_) => 1,
        ScalarValue::U16(_) => 2,
        ScalarValue::U32(_) => 3,
        ScalarValue::U64(_) => 4,
        ScalarValue::U128(_) => 5,
        ScalarValue::I8(_) => 6,
        ScalarValue::I16(_) => 7,
        ScalarValue::I32(_) => 8,
        ScalarValue::I64(_) => 9,
        ScalarValue::I128(_) => 10,
        ScalarValue::Bool(_) => 11,
        ScalarValue::Char(_) => 12,
        ScalarValue::Ipv4Addr(_) => 13,
        ScalarValue::Ipv6Addr(_) => 14,
        ScalarValue::Duration(_, _) => 15,
        ScalarValue::String(_) => 16,
    }
}

/// Whether two scalars are equal: same kind and same value.
pub fn scalar_eq(a: &ScalarValue, b: &ScalarValue) -> (r: bool)
    ensures
        r == (scalar_view(*a) == scalar_view(*b)),
{
    match (a, b) {
        (ScalarValue::Usize(x), ScalarValue::Usize(y)) => *x == *y,
        (ScalarValue::U8(x), ScalarValue::U8(y)) => *x == *y,
        (ScalarValue::U16(x), ScalarValue::U16(y)) => *x == *y,
        (ScalarValue::U32(x), ScalarValue::U32(y)) => *x == *y,
        (ScalarValue::U64(x), ScalarValue::U64(y)) => *x == *y,
        (ScalarValue::U128(x), ScalarValue::U128(y)) => *x == *y,
        (ScalarValue::I8(x), ScalarValue::I8(y)) => *x == *y,
        (ScalarValue::I16(x), ScalarValue::I16(y)) => *x == *y,
        (ScalarValue::I32(x), ScalarValue::I32(y)) => *x == *y,
        (ScalarValue::I64(x), ScalarValue::I64(y)) => *x == *y,
        (ScalarValue::I128(x), ScalarValue::I128(y)) => *x == *y,
        (ScalarValue::Bool(x), ScalarValue::Bool(y)) => *x == *y,
        (ScalarValue::Char(x), ScalarValue::Char(y)) => *x == *y,
        (ScalarValue::Ipv4Addr(x), ScalarValue::Ipv4Addr(y)) => *x == *y,
        (ScalarValue::Ipv6Addr(x), ScalarValue::Ipv6Addr(y)) => *x == *y,
        (ScalarValue::Duration(s1, n1), ScalarValue::Duration(s2, n2)) => *s1 == *s2 && *n1
            == *n2,
        (ScalarValue::String(x), ScalarValue::String(y)) => *x == *y,
        _ => false,
    }
}

/// Whether one scalar key sorts before another, as [`scalar_lt`].
pub fn scalar_less(a: &ScalarValue, b: &ScalarValue) -> (r: bool)
    ensures
        r == scalar_lt(scalar_view(*a), scalar_view(*b)),
{
    let ra = scalar_rank_of(a);
    let rb = scalar_rank_of(b);
    if ra != rb {
        return ra < rb;
    }
    match (a, b) {
        (ScalarValue::Usize(x), ScalarValue::Usize(y)) => *x < *y,
        (ScalarValue::U8(x), ScalarValue::U8(y)) => *x < *y,
        (ScalarValue::U16(x), ScalarValue::U16(y)) => *x < *y,
        (ScalarValue::U32(x), ScalarValue::U32(y)) => *x < *y,
        (ScalarValue::U64(x), ScalarValue::U64(y)) => *x < *y,
        (ScalarValue::U128(x), ScalarValue::U128(y)) => *x < *y,
        (ScalarValue::I8(x), ScalarValue::I8(y)) => *x < *y,
        (ScalarValue::I16(x), ScalarValue::I16(y)) => *x < *y,
        (ScalarValue::I32(x), ScalarValue::I32(y)) => *x < *y,
        (ScalarValue::I64(x), ScalarValue::I64(y)) => *x < *y,
        (ScalarValue::I128(x), ScalarValue::I128(y)) => *x < *y,
        (ScalarValue::Bool(x), ScalarValue::Bool(y)) => !*x && *y,
        (ScalarValue::Char(x), ScalarValue::Char(y)) => *x < *y,
        (ScalarValue::Ipv4Addr(x), ScalarValue::Ipv4Addr(y)) => *x < *y,
        (ScalarValue::Ipv6Addr(x), ScalarValue::Ipv6Addr(y)) => *x < *y,
        (ScalarValue::Duration(s1, n1), ScalarValue::Duration(s2, n2)) => *s1 < *s2 || (*s1
            == *s2 && *n1 < *n2),
        (ScalarValue::String(x), ScalarValue::String(y)) => str_lt(x.as_str(), y.as_str()),
        _ => false,
    }
}

/// A copy of a scalar.
pub fn clone_scalar(s: &ScalarValue) -> (r: ScalarValue)
    ensures
        scalar_view(r) == scalar_view(*s),
{
    match s {
        ScalarValue::Usize(x) => ScalarValue::Usize(*x),
        ScalarValue::U8(x) => ScalarValue::U8(*x),
        ScalarValue::U16(x) => ScalarValue::U16(*x),
        ScalarValue::U32(x) => ScalarValue::U32(*x),
        ScalarValue::U64(x) => ScalarValue::U64(*x),
        ScalarValue::U128(x) => ScalarValue::U128(*x),
        ScalarValue::I8(x) => ScalarValue::I8(*x),
        ScalarValue::I16(x) => ScalarValue::I16(*x),
        ScalarValue::I32(x) => ScalarValue::I32(*x),
        ScalarValue::I64(x) => ScalarValue::I64(*x),
        ScalarValue::I128(x) => ScalarValue::I128(*x),
        ScalarValue::Bool(x) => ScalarValue::Bool(*x),
        ScalarValue::Char(x) => ScalarValue::Char(*x),
        ScalarValue::Ipv4Addr(x) => ScalarValue::Ipv4Addr(*x),
        ScalarValue::Ipv6Addr(x) => ScalarValue::Ipv6Addr(*x),
        ScalarValue::Duration(s, n) => ScalarValue::Duration(*s, *n),
        ScalarValue::String(x) => ScalarValue::String(x.clone()),
    }
}

// ---------------------------------------------------------------------
// Copies of trees

/// A copy of a reflected tree.
pub fn clone_value(v: &ReflectValue) -> (r: ReflectValue)
    ensures
        value_view(r) == value_view(*v),
    decreases v, 1nat,
{
    let data = match &v.data {
        ReflectData::Scalar(s) => ReflectData::Scalar(clone_scalar(s)),
        ReflectData::Struct(fs) => {
            proof { assert(decreases_to!(*v => v.data)); }
            ReflectData::Struct(clone_values(fs))
        },
        ReflectData::TupleStruct(fs) => {
            proof { assert(decreases_to!(*v => v.data)); }
            ReflectData::TupleStruct(clone_values(fs))
        },
        ReflectData::Tuple(fs) => {
            proof { assert(decreases_to!(*v => v.data)); }
            ReflectData::Tuple(clone_values(fs))
        },
        ReflectData::Enum(name, kind, fs) => {
            proof { assert(decreases_to!(*v => v.data)); }
            ReflectData::Enum(name.clone(), *kind, clone_values(fs))
        },
        ReflectData::List(fs) => {
            proof { assert(decreases_to!(*v => v.data)); }
            ReflectData::List(clone_values(fs))
        },
        ReflectData::Array(fs) => {
            proof { assert(decreases_to!(*v => v.data)); }
            ReflectData::Array(clone_values(fs))
        },
        ReflectData::Mapping(es) => {
            proof { assert(decreases_to!(*v => v.data)); }
            ReflectData::Mapping(clone_entries(es))
        },
        ReflectData::Opaque(bytes) => ReflectData::Opaque(bytes.clone()),
    };
    ReflectValue { type_ident: v.type_ident.clone(), data }
}

/// Copies of a sequence of trees.
pub fn clone_values(vs: &Vec<ReflectValue>) -> (r: Vec<ReflectValue>)
    ensures
        values_view(r@) == values_view(vs@),
    decreases vs, 0nat,
{
    let mut out: Vec<ReflectValue> = Vec::new();
    let mut i: usize = 0;
    while i < vs.len()
        invariant
            i <= vs.len(),
            out@.len() == i,
            forall|j: int| 0 <= j < i ==> #[trigger] value_view(out@[j]) == value_view(vs@[j]),
        decreases vs.len() - i,
    {
        proof {
            assert(decreases_to!(*vs => vs@));
            assert(decreases_to!(vs@ => vs@[i as int]));
        }
        let c = clone_value(&vs[i]);
        out.push(c);
        i = i + 1;
    }
    proof {
        lemma_values_view(out@);
        lemma_values_view(vs@);
        assert(values_view(out@) =~= values_view(vs@));
    }
    out
}

/// Copies of a sequence of map entries.
pub fn clone_entries(es: &Vec<MapEntry>) -> (r: Vec<MapEntry>)
    ensures
        entries_view(r@) == entries_view(es@),
    decreases es, 0nat,
{
    let mut out: Vec<MapEntry> = Vec::new();
    let mut i: usize = 0;
    while i < es.len()
        invariant
            i <= es.len(),
            out@.len() == i,
            forall|j: int|
                0 <= j < i ==> value_view((#[trigger] out@[j]).key) == value_view(es@[j].key)
                    && value_view(out@[j].value) == value_view(es@[j].value),
        decreases es.len() - i,
    {
        proof {
            assert(decreases_to!(*es => es@));
            assert(decreases_to!(es@ => es@[i as int]));
            assert(decreases_to!(es@[i as int] => es@[i as int].key));
            assert(decreases_to!(es@[i as int] => es@[i as int].value));
        }
        let k = clone_value(&es[i].key);
        let v = clone_value(&es[i].value);
        out.push(MapEntry { key: k, value: v });
        i = i + 1;
    }
    proof {
        lemma_entries_view(out@);
        lemma_entries_view(es@);
        assert(entries_view(out@) =~= entries_view(es@));
    }
    out
}


/// Whether two byte strings are equal.
pub fn bytes_eq(a: &Vec<u8>, b: &Vec<u8>) -> (r: bool)
    ensures
        r == (a@ == b@),
{
    if a.len() != b.len() {
        return false;
    }
    let mut i: usize = 0;
    while i < a.len()
        invariant
            a@.len() == b@.len(),
            i <= a.len(),
            forall|j: int| 0 <= j < i ==> a@[j] == b@[j],
        decreases a.len() - i,
    {
        if a[i] != b[i] {
            return false;
        }
        i = i + 1;
    }
    assert(a@ =~= b@);
    true
}

// ---------------------------------------------------------------------
// The update

impl UpdateError {
    /// The error for two values of different types.
    pub fn incompatible(existing: &ReflectValue, update: &ReflectValue) -> (r: UpdateError)
        ensures
            r matches UpdateError::Incompatible { existing: e, update: u } && e@
                == existing.type_ident@ && u@ == update.type_ident@,
    {
        UpdateError::Incompatible {
            existing: existing.type_ident.clone(),
            update: update.type_ident.clone(),
        }
    }
}

/// The position-by-position facts about two sequences of trees.
proof fn lemma_seq_facts(x: Seq<ValueV>, y: Seq<ValueV>)
    ensures
        all_wf(x) == (forall|i: int| 0 <= i < x.len() ==> #[trigger] wf(x[i])),
        all_wf(y) == (forall|i: int| 0 <= i < y.len() ==> #[trigger] wf(y[i])),
        pairs(x, y, false) == (forall|i: int|
            0 <= i < y.len() ==> #[trigger] relate(x[i], y[i], false)),
        pairs(x, y, true) == (forall|i: int| 0 <= i < y.len() ==> #[trigger] relate(x[i], y[i], true)),
        list_pairs(x, y, false) == (forall|i: int|
            0 <= i < y.len() ==> #[trigger] relate(element_for(x, y, i), y[i], false)),
        list_pairs(x, y, true) == (forall|i: int|
            0 <= i < y.len() ==> #[trigger] relate(element_for(x, y, i), y[i], true)),
{
    lemma_all_wf(x);
    lemma_all_wf(y);
    lemma_pairs(x, y, false);
    lemma_pairs(x, y, true);
    lemma_list_pairs(x, y, false);
    lemma_list_pairs(x, y, true);
}

/// Facts about the fields of two struct-like trees of one type.
proof fn lemma_fields(a: ValueV, b: ValueV, x: Seq<ValueV>, y: Seq<ValueV>)
    requires
        wf_pair(a, b),
        a.type_ident == b.type_ident,
        (a.data == DataV::Struct(x) && b.data == DataV::Struct(y)) || (a.data
            == DataV::TupleStruct(x) && b.data == DataV::TupleStruct(y)) || (a.data
            == DataV::Tuple(x) && b.data == DataV::Tuple(y)),
    ensures
        x.len() == y.len(),
        forall|i: int| 0 <= i < y.len() ==> #[trigger] wf_pair(x[i], y[i]),
        update_ok(a, b) == (forall|i: int| 0 <= i < y.len() ==> #[trigger] update_ok(x[i], y[i])),
        (a == b) == (x == y),
{
    lemma_seq_facts(x, y);
    assert forall|i: int| 0 <= i < y.len() implies #[trigger] wf_pair(x[i], y[i]) by {
        assert(relate(x[i], y[i], false));
    }
    assert(update_ok(a, b) == pairs(x, y, true));
    if update_ok(a, b) {
        assert forall|i: int| 0 <= i < y.len() implies #[trigger] update_ok(x[i], y[i]) by {
            assert(relate(x[i], y[i], true));
        }
    }
    if forall|i: int| 0 <= i < y.len() ==> #[trigger] update_ok(x[i], y[i]) {
        assert forall|i: int| 0 <= i < y.len() implies #[trigger] relate(x[i], y[i], true) by {
            assert(update_ok(x[i], y[i]));
        }
    }
}

/// Updates `existing[i]` from `update[i]` for every position, in order.
fn update_seq(existing: Vec<ReflectValue>, update: &Vec<ReflectValue>) -> (r: (
    Vec<ReflectValue>,
    Result<bool, UpdateError>,
))
    requires
        existing@.len() == update@.len(),
        forall|i: int|
            0 <= i < update@.len() ==> #[trigger] wf_pair(
                values_view(existing@)[i],
                values_view(update@)[i],
            ),
    ensures
        (r.1 is Ok) == (forall|i: int|
            0 <= i < update@.len() ==> #[trigger] update_ok(
                values_view(existing@)[i],
                values_view(update@)[i],
            )),
        r.1 is Ok ==> values_view(r.0@) == values_view(update@),
        r.1 matches Ok(m) ==> m == (values_view(existing@) != values_view(update@)),
    decreases update, 1nat,
{
    let ghost original = existing@;
    let ghost xs = values_view(existing@);
    let ghost ys = values_view(update@);
    proof {
        lemma_values_view(existing@);
        lemma_values_view(update@);
    }
    let ghost n = update@.len();
    assert forall|j: int| 0 <= j < n implies #[trigger] wf_pair(xs[j], ys[j]) by {
        assert(values_view(existing@)[j] == xs[j]);
    }
    let mut rest = existing;
    let mut out: Vec<ReflectValue> = Vec::new();
    let mut modified = false;
    let mut i: usize = 0;
    while i < update.len()
        invariant
            n == update@.len(),
            original == existing@,
            original.len() == n,
            xs == values_view(original),
            ys == values_view(update@),
            xs.len() == n,
            ys.len() == n,
            forall|j: int| 0 <= j < n ==> #[trigger] ys[j] == value_view(update@[j]),
            forall|j: int| 0 <= j < n ==> #[trigger] xs[j] == value_view(original[j]),
            forall|j: int| 0 <= j < n ==> #[trigger] wf_pair(xs[j], ys[j]),
            i <= n,
            rest@ == original.subrange(i as int, n as int),
            out@.len() == i,
            forall|j: int| 0 <= j < i ==> #[trigger] value_view(out@[j]) == ys[j],
            forall|j: int| 0 <= j < i ==> #[trigger] update_ok(xs[j], ys[j]),
            modified == (exists|j: int| 0 <= j < i && #[trigger] xs[j] != ys[j]),
        decreases n - i,
    {
        let child = rest.remove(0);
        assert(child == original[i as int]);
        assert(xs[i as int] == value_view(child));
        assert(ys[i as int] == value_view(update@[i as int]));
        assert(wf_pair(xs[i as int], ys[i as int]));
        proof {
            assert(decreases_to!(*update => update@));
            assert(decreases_to!(update@ => update@[i as int]));
        }
        let (nc, res) = update_value(child, &update[i]);
        match res {
            Ok(m) => {
                out.push(nc);
                let ghost was = modified;
                modified = modified || m;
                proof {
                    if modified {
                        if !was {
                            assert(xs[i as int] != ys[i as int]);
                        }
                    } else {
                        assert forall|j: int| 0 <= j < i + 1 implies #[trigger] xs[j] == ys[j] by {
                            if j < i {
                                if xs[j] != ys[j] {
                                    assert(was);
                                }
                            }
                        }
                    }
                }
            },
            Err(e) => {
                assert(!update_ok(values_view(original)[i as int], values_view(update@)[i as int]));
                out.push(nc);
                out.append(&mut rest);
                return (out, Err(e));
            },
        }
        i = i + 1;
    }
    proof {
        lemma_values_view(out@);
        assert(values_view(out@) =~= ys);
        if !modified {
            assert(xs =~= ys);
        }
    }
    (out, Ok(modified))
}

/// Updates `existing` from `update` and reports whether it changed.
#[verifier::spinoff_prover]
#[verifier::rlimit(50)]
fn update_value(existing: ReflectValue, update: &ReflectValue) -> (r: (
    ReflectValue,
    Result<bool, UpdateError>,
))
    requires
        wf(value_view(existing)),
        wf(value_view(*update)),
        well_typed(value_view(existing), value_view(*update)),
    ensures
        (r.1 is Ok) == update_ok(value_view(existing), value_view(*update)),
        r.1 is Ok ==> value_view(r.0) == value_view(*update),
        r.1 matches Ok(m) ==> m == (value_view(existing) != value_view(*update)),
        existing.type_ident@ != update.type_ident@ ==> value_view(r.0) == value_view(existing),
        existing.type_ident@ != update.type_ident@ ==> (r.1 matches Err(
            UpdateError::Incompatible { existing: e, update: u },
        ) && e@ == existing.type_ident@ && u@ == update.type_ident@),
        scalar_kinds_differ(value_view(existing), value_view(*update)) ==> value_view(r.0)
            == value_view(existing),
        scalar_kinds_differ(value_view(existing), value_view(*update)) ==> (r.1 matches Err(
            UpdateError::Incompatible { existing: e, update: u },
        ) && e@ == existing.type_ident@ && u@ == update.type_ident@),
        maps_with_non_scalar_keys(value_view(existing), value_view(*update)) ==> r.1 matches Err(
            UpdateError::NonScalarKeys,
        ),
        arrays_of_unequal_length(value_view(existing), value_view(*update)) ==> r.1 matches Err(
            UpdateError::UnequalArrays,
        ),
    decreases update, 3nat,
{
    if !(existing.type_ident == update.type_ident) {
        let e = UpdateError::incompatible(&existing, update);
        return (existing, Err(e));
    }
    let ghost old_view = value_view(existing);
    let ReflectValue { type_ident, data } = existing;
    proof {
        assert(decreases_to!(*update => update.data));
    }
    match (data, &update.data) {
        (ReflectData::Scalar(x), ReflectData::Scalar(y)) => {
            if scalar_rank_of(&x) != scalar_rank_of(y) {
                let e = UpdateError::Incompatible {
                    existing: type_ident.clone(),
                    update: update.type_ident.clone(),
                };
                (ReflectValue { type_ident, data: ReflectData::Scalar(x) }, Err(e))
            } else if scalar_eq(&x, y) {
                (ReflectValue { type_ident, data: ReflectData::Scalar(x) }, Ok(false))
            } else {
                (ReflectValue { type_ident, data: ReflectData::Scalar(clone_scalar(y)) }, Ok(true))
            }
        },
        (ReflectData::Opaque(x), ReflectData::Opaque(y)) => {
            if bytes_eq(&x, y) {
                (ReflectValue { type_ident, data: ReflectData::Opaque(x) }, Ok(false))
            } else {
                (ReflectValue { type_ident, data: ReflectData::Opaque(y.clone()) }, Ok(true))
            }
        },
        (ReflectData::Struct(xs), ReflectData::Struct(ys)) => {
            proof {
                lemma_values_view(xs@);
                lemma_values_view(ys@);
                lemma_fields(old_view, value_view(*update), values_view(xs@), values_view(ys@));
            }
            let (zs, res) = update_seq(xs, ys);
            (ReflectValue { type_ident, data: ReflectData::Struct(zs) }, res)
        },
        (ReflectData::TupleStruct(xs), ReflectData::TupleStruct(ys)) => {
            proof {
                lemma_values_view(xs@);
                lemma_values_view(ys@);
                lemma_fields(old_view, value_view(*update), values_view(xs@), values_view(ys@));
            }
            let (zs, res) = update_seq(xs, ys);
            (ReflectValue { type_ident, data: ReflectData::TupleStruct(zs) }, res)
        },
        (ReflectData::Tuple(xs), ReflectData::Tuple(ys)) => {
            proof {
                lemma_values_view(xs@);
                lemma_values_view(ys@);
                lemma_fields(old_view, value_view(*update), values_view(xs@), values_view(ys@));
            }
            let (zs, res) = update_seq(xs, ys);
            (ReflectValue { type_ident, data: ReflectData::Tuple(zs) }, res)
        },
        (ReflectData::Enum(n1, k1, xs), ReflectData::Enum(n2, _k2, ys)) => {
            if !(n1 == *n2) {
                (clone_value(update), Ok(true))
            } else {
                proof {
                    lemma_values_view(xs@);
                    lemma_values_view(ys@);
                    lemma_seq_facts(values_view(xs@), values_view(ys@));
                    assert forall|i: int| 0 <= i < ys@.len() implies #[trigger] wf_pair(
                        values_view(xs@)[i],
                        values_view(ys@)[i],
                    ) by {
                        assert(relate(values_view(xs@)[i], values_view(ys@)[i], false));
                    }
                    if pairs(values_view(xs@), values_view(ys@), true) {
                        assert forall|i: int| 0 <= i < ys@.len() implies #[trigger] update_ok(
                            values_view(xs@)[i],
                            values_view(ys@)[i],
                        ) by {
                            assert(relate(values_view(xs@)[i], values_view(ys@)[i], true));
                        }
                    }
                }
                if k1 == VariantKind::Unit {
                    proof {
                        assert(values_view(xs@) =~= values_view(ys@));
                    }
                    (ReflectValue { type_ident, data: ReflectData::Enum(n1, k1, xs) }, Ok(false))
                } else {
                    let (zs, res) = update_seq(xs, ys);
                    proof {
                        if res is Ok {
                            assert forall|i: int| 0 <= i < ys@.len() implies #[trigger] relate(
                                values_view(xs@)[i],
                                values_view(ys@)[i],
                                true,
                            ) by {
                                assert(update_ok(values_view(xs@)[i], values_view(ys@)[i]));
                            }
                        }
                    }
                    (ReflectValue { type_ident, data: ReflectData::Enum(n1, k1, zs) }, res)
                }
            }
        },
        (ReflectData::List(xs), ReflectData::List(ys)) => {
            proof {
                lemma_values_view(xs@);
                lemma_values_view(ys@);
                lemma_seq_facts(values_view(xs@), values_view(ys@));
            }
            let (zs, res) = update_list(xs, ys);
            proof {
                let x = values_view(xs@);
                let y = values_view(ys@);
                if update_ok(old_view, value_view(*update)) {
                    assert forall|i: int| 0 <= i < ys@.len() implies #[trigger] update_ok(
                        element_for(x, y, i),
                        y[i],
                    ) by {
                        assert(relate(element_for(x, y, i), y[i], true));
                    }
                }
                if res is Ok {
                    assert forall|i: int| 0 <= i < ys@.len() implies #[trigger] relate(
                        element_for(x, y, i),
                        y[i],
                        true,
                    ) by {
                        assert(update_ok(element_for(x, y, i), y[i]));
                    }
                }
            }
            (ReflectValue { type_ident, data: ReflectData::List(zs) }, res)
        },
        (ReflectData::Array(xs), ReflectData::Array(ys)) => {
            proof {
                lemma_values_view(xs@);
                lemma_values_view(ys@);
                lemma_seq_facts(values_view(xs@), values_view(ys@));
            }
            let (zs, res) = update_array(xs, ys);
            proof {
                let x = values_view(xs@);
                let y = values_view(ys@);
                if update_ok(old_view, value_view(*update)) && x.len() == y.len() {
                    assert forall|i: int| 0 <= i < ys@.len() implies #[trigger] update_ok(
                        x[i],
                        y[i],
                    ) by {
                        assert(relate(x[i], y[i], true));
                    }
                }
                if res is Ok && x.len() == y.len() {
                    assert forall|i: int| 0 <= i < ys@.len() implies #[trigger] relate(
                        x[i],
                        y[i],
                        true,
                    ) by {
                        assert(update_ok(x[i], y[i]));
                    }
                }
            }
            (ReflectValue { type_ident, data: ReflectData::Array(zs) }, res)
        },
        (ReflectData::Mapping(xs), ReflectData::Mapping(ys)) => {
            let (zs, res) = update_map(xs, ys);
            (ReflectValue { type_ident, data: ReflectData::Mapping(zs) }, res)
        },
        (d, _) => {
            proof {
                assert(false);
            }
            (ReflectValue { type_ident, data: d }, Ok(false))
        },
    }
}


/// Updates a list: drops or appends elements until the lengths agree, then
/// updates element by element.
fn update_list(existing: Vec<ReflectValue>, update: &Vec<ReflectValue>) -> (r: (
    Vec<ReflectValue>,
    Result<bool, UpdateError>,
))
    requires
        forall|i: int|
            0 <= i < existing@.len() ==> wf(#[trigger] values_view(existing@)[i]),
        forall|i: int| 0 <= i < update@.len() ==> wf(#[trigger] values_view(update@)[i]),
        forall|i: int|
            0 <= i < update@.len() ==> #[trigger] well_typed(
                element_for(values_view(existing@), values_view(update@), i),
                values_view(update@)[i],
            ),
    ensures
        (r.1 is Ok) == (forall|i: int|
            0 <= i < update@.len() ==> #[trigger] update_ok(
                element_for(values_view(existing@), values_view(update@), i),
                values_view(update@)[i],
            )),
        r.1 is Ok ==> values_view(r.0@) == values_view(update@),
        r.1 matches Ok(m) ==> m == (values_view(existing@) != values_view(update@)),
    decreases update, 2nat,
{
    let ghost xs = values_view(existing@);
    let ghost ys = values_view(update@);
    proof {
        lemma_values_view(existing@);
        lemma_values_view(update@);
    }
    let ghost original = existing@;
    let n0 = existing.len();
    let mut z = existing;
    while z.len() > update.len()
        invariant
            z@.len() <= original.len(),
            z@ == original.subrange(0, z@.len() as int),
            z@.len() == original.len() || z@.len() >= update@.len(),
        decreases z.len(),
    {
        z.pop();
    }
    let mut idx: usize = z.len();
    while idx < update.len()
        invariant
            idx == z@.len(),
            idx <= update@.len(),
            n0 == original.len(),
            xs == values_view(original),
            xs.len() == original.len(),
            forall|j: int| 0 <= j < original.len() ==> #[trigger] xs[j] == value_view(original[j]),
            ys == values_view(update@),
            ys.len() == update@.len(),
            forall|j: int| 0 <= j < update@.len() ==> #[trigger] ys[j] == value_view(update@[j]),
            forall|j: int|
                0 <= j < idx ==> #[trigger] value_view(z@[j]) == element_for(xs, ys, j),
            idx < update@.len() ==> idx >= n0,
        decreases update.len() - idx,
    {
        let c = clone_value(&update[idx]);
        let ghost before = z@;
        z.push(c);
        proof {
            assert(ys[idx as int] == value_view(update@[idx as int]));
            assert forall|j: int| 0 <= j < idx + 1 implies #[trigger] value_view(z@[j])
                == element_for(xs, ys, j) by {
                if j < idx {
                    assert(z@[j] == before[j]);
                }
            }
        }
        idx = idx + 1;
    }
    let changed = n0 != update.len();
    proof {
        lemma_values_view(z@);
        assert forall|j: int| 0 <= j < update@.len() implies #[trigger] values_view(z@)[j]
            == element_for(xs, ys, j) by {}
    }
    let ghost zs = values_view(z@);
    let (w, res) = update_seq(z, update);
    match res {
        Ok(m) => {
            proof {
                if !changed {
                    assert(zs =~= xs);
                }
                assert forall|i: int| 0 <= i < update@.len() implies #[trigger] update_ok(
                    element_for(values_view(original), values_view(update@), i),
                    values_view(update@)[i],
                ) by {
                    assert(update_ok(zs[i], ys[i]));
                }
            }
            (w, Ok(changed || m))
        },
        Err(e) => {
            proof {
                let i = choose|i: int| 0 <= i < update@.len() && !update_ok(zs[i], ys[i]);
                assert(!update_ok(
                    element_for(values_view(original), values_view(update@), i),
                    values_view(update@)[i],
                ));
            }
            (w, Err(e))
        },
    }
}

/// Updates a fixed-size array element by element; arrays of different
/// lengths cannot be updated unless both are empty.
fn update_array(existing: Vec<ReflectValue>, update: &Vec<ReflectValue>) -> (r: (
    Vec<ReflectValue>,
    Result<bool, UpdateError>,
))
    requires
        forall|i: int|
            0 <= i < existing@.len() ==> wf(#[trigger] values_view(existing@)[i]),
        forall|i: int| 0 <= i < update@.len() ==> wf(#[trigger] values_view(update@)[i]),
        existing@.len() == update@.len() ==> forall|i: int|
            0 <= i < update@.len() ==> #[trigger] well_typed(
                values_view(existing@)[i],
                values_view(update@)[i],
            ),
    ensures
        (r.1 is Ok) == ((existing@.len() == 0 && update@.len() == 0) || (existing@.len()
            == update@.len() && forall|i: int|
            0 <= i < update@.len() ==> #[trigger] update_ok(
                values_view(existing@)[i],
                values_view(update@)[i],
            ))),
        r.1 is Ok ==> values_view(r.0@) == values_view(update@),
        r.1 matches Ok(m) ==> m == (values_view(existing@) != values_view(update@)),
        existing@.len() != update@.len() && !(existing@.len() == 0 && update@.len() == 0) ==> r.1
            matches Err(UpdateError::UnequalArrays),
    decreases update, 2nat,
{
    proof {
        lemma_values_view(existing@);
        lemma_values_view(update@);
    }
    if existing.len() == 0 && update.len() == 0 {
        assert(values_view(existing@) =~= values_view(update@));
        return (existing, Ok(false));
    }
    if existing.len() != update.len() {
        return (existing, Err(UpdateError::UnequalArrays));
    }
    update_seq(existing, update)
}

// ---------------------------------------------------------------------
// Maps

/// The scalar of a map entry's key.
pub open spec fn key_of(e: (ValueV, ValueV)) -> ScalarV {
    e.0.data->Scalar_0
}

/// No scalar sorts before itself.
proof fn lemma_scalar_lt_irreflexive()
    ensures
        forall|a: ScalarV| !(#[trigger] scalar_lt(a, a)),
{
    assert forall|a: ScalarV| !(#[trigger] scalar_lt(a, a)) by {
        lemma_scalar_lt_total(a, a);
    }
}

/// Whether every key of a map is a scalar.
fn keys_all_scalar(es: &Vec<MapEntry>) -> (r: bool)
    ensures
        r == keys_are_scalars(entries_view(es@)),
{
    proof {
        lemma_entries_view(es@);
    }
    let mut i: usize = 0;
    while i < es.len()
        invariant
            i <= es.len(),
            entries_view(es@).len() == es@.len(),
            forall|j: int|
                0 <= j < es@.len() ==> #[trigger] entries_view(es@)[j] == (
                    value_view(es@[j].key),
                    value_view(es@[j].value),
                ),
            forall|j: int| 0 <= j < i ==> #[trigger] is_scalar_key(entries_view(es@)[j].0),
        decreases es.len() - i,
    {
        match &es[i].key.data {
            ReflectData::Scalar(_) => {},
            _ => {
                assert(!is_scalar_key(entries_view(es@)[i as int].0));
                return false;
            },
        }
        i = i + 1;
    }
    true
}

/// Compares two scalar keys: 0 when they are the same key, 1 when `a`
/// sorts first, 2 when `b` does.
fn compare_keys(a: &ReflectValue, b: &ReflectValue) -> (r: u8)
    requires
        value_view(*a).data is Scalar,
        value_view(*b).data is Scalar,
    ensures
        r <= 2,
        r == 0 <==> value_view(*a).data->Scalar_0 == value_view(*b).data->Scalar_0,
        r == 1 ==> scalar_lt(value_view(*a).data->Scalar_0, value_view(*b).data->Scalar_0),
        r == 2 ==> scalar_lt(value_view(*b).data->Scalar_0, value_view(*a).data->Scalar_0),
{
    match (&a.data, &b.data) {
        (ReflectData::Scalar(x), ReflectData::Scalar(y)) => {
            proof {
                lemma_scalar_lt_total(scalar_view(*x), scalar_view(*y));
            }
            if scalar_eq(x, y) {
                0
            } else if scalar_less(x, y) {
                1
            } else {
                2
            }
        },
        _ => {
            proof {
                assert(false);
            }
            0
        },
    }
}

/// Updates an ordered map: entries whose key is gone are removed, new keys
/// are added with a copy of their value, and entries present in both are
/// updated in place. Maps whose keys are not all scalars are refused.
#[verifier::spinoff_prover]
#[verifier::rlimit(80)]
fn update_map(existing: Vec<MapEntry>, update: &Vec<MapEntry>) -> (r: (
    Vec<MapEntry>,
    Result<bool, UpdateError>,
))
    requires
        entries_wf(entries_view(existing@)),
        entries_wf(entries_view(update@)),
        keys_are_scalars(entries_view(existing@)) ==> keys_ascending(entries_view(existing@)),
        keys_are_scalars(entries_view(update@)) ==> keys_ascending(entries_view(update@)),
        map_all(entries_view(existing@), entries_view(update@), false),
    ensures
        (r.1 is Ok) == (keys_are_scalars(entries_view(existing@)) && keys_are_scalars(
            entries_view(update@),
        ) && map_all(entries_view(existing@), entries_view(update@), true)),
        r.1 is Ok ==> entries_view(r.0@) == entries_view(update@),
        r.1 matches Ok(m) ==> m == (entries_view(existing@) != entries_view(update@)),
        !(keys_are_scalars(entries_view(existing@)) && keys_are_scalars(entries_view(update@)))
            ==> r.1 matches Err(UpdateError::NonScalarKeys),
    decreases update, 2nat,
{
    let ghost xs = entries_view(existing@);
    let ghost ys = entries_view(update@);
    proof {
        lemma_entries_view(existing@);
        lemma_entries_view(update@);
        lemma_entries_wf(xs);
        lemma_entries_wf(ys);
        lemma_map_all(xs, ys, false);
    }
    if !keys_all_scalar(&existing) || !keys_all_scalar(update) {
        return (existing, Err(UpdateError::NonScalarKeys));
    }
    let ghost original = existing@;
    let n = existing.len();
    let m = update.len();
    let mut rest = existing;
    let mut out: Vec<MapEntry> = Vec::new();
    let mut modified = false;
    let mut i: usize = 0;
    let mut j: usize = 0;
    while i < n || j < m
        invariant
            original == existing@,
            xs == entries_view(original),
            ys == entries_view(update@),
            n == original.len(),
            m == update@.len(),
            xs.len() == n,
            ys.len() == m,
            forall|p: int|
                0 <= p < n ==> #[trigger] xs[p] == (
                    value_view(original[p].key),
                    value_view(original[p].value),
                ),
            forall|q: int|
                0 <= q < m ==> #[trigger] ys[q] == (
                    value_view(update@[q].key),
                    value_view(update@[q].value),
                ),
            keys_are_scalars(xs),
            keys_are_scalars(ys),
            keys_ascending(xs),
            keys_ascending(ys),
            forall|p: int| 0 <= p < n ==> wf(#[trigger] xs[p].0) && wf(xs[p].1),
            forall|q: int| 0 <= q < m ==> wf(#[trigger] ys[q].0) && wf(ys[q].1),
            forall|p: int, q: int|
                0 <= p < n && 0 <= q < m ==> #[trigger] entry_related(xs[p], ys[q], false),
            i <= n,
            j <= m,
            rest@ == original.subrange(i as int, n as int),
            out@.len() == j,
            forall|q: int|
                0 <= q < j ==> (value_view((#[trigger] out@[q]).key), value_view(out@[q].value))
                    == ys[q],
            forall|p: int, q: int|
                0 <= p < i && j <= q < m ==> scalar_lt(
                    key_of(#[trigger] xs[p]),
                    key_of(#[trigger] ys[q]),
                ),
            forall|p: int, q: int|
                0 <= q < j && i <= p < n ==> scalar_lt(
                    key_of(#[trigger] ys[q]),
                    key_of(#[trigger] xs[p]),
                ),
            forall|p: int, q: int|
                0 <= p < i && 0 <= q < j ==> #[trigger] entry_related(xs[p], ys[q], true),
            !modified ==> (i == j && forall|p: int| 0 <= p < i ==> #[trigger] xs[p] == ys[p]),
            xs == ys ==> !modified,
        decreases (n - i) + (m - j),
    {
        proof {
            lemma_scalar_lt_irreflexive();
        }
        let step: u8 = if i < n && j < m {
            assert(rest@[0] == original[i as int]);
            assert(xs[i as int] == (value_view(original[i as int].key), value_view(original[i as int].value)));
            assert(is_scalar_key(xs[i as int].0));
            assert(is_scalar_key(ys[j as int].0));
            compare_keys(&rest[0].key, &update[j].key)
        } else if i < n {
            1
        } else {
            2
        };
        if step == 0 {
            let e = rest.remove(0);
            let MapEntry { key, value } = e;
            assert(xs[i as int] == (value_view(key), value_view(value)));
            assert(ys[j as int] == (value_view(update@[j as int].key), value_view(update@[j as int].value)));
            assert(same_key(xs[i as int].0, ys[j as int].0));
            assert(entry_related(xs[i as int], ys[j as int], false));
            proof {
                assert(decreases_to!(*update => update@));
                assert(decreases_to!(update@ => update@[j as int]));
                assert(decreases_to!(update@[j as int] => update@[j as int].value));
            }
            let (nv, res) = update_value(value, &update[j].value);
            match res {
                Ok(mm) => {
                    assert(xs[i as int].0 == ys[j as int].0);
                    let ghost was = modified;
                    out.push(MapEntry { key, value: nv });
                    modified = modified || mm;
                    proof {
                        assert forall|p: int, q: int|
                            0 <= p < i + 1 && j + 1 <= q < m implies scalar_lt(
                            key_of(#[trigger] xs[p]),
                            key_of(#[trigger] ys[q]),
                        ) by {
                            if p == i {
                                assert(scalar_lt(key_of(ys[j as int]), key_of(ys[q])));
                            }
                        }
                        assert forall|p: int, q: int|
                            0 <= q < j + 1 && i + 1 <= p < n implies scalar_lt(
                            key_of(#[trigger] ys[q]),
                            key_of(#[trigger] xs[p]),
                        ) by {
                            if q == j {
                                assert(scalar_lt(key_of(xs[i as int]), key_of(xs[p])));
                            }
                        }
                        assert forall|p: int, q: int|
                            0 <= p < i + 1 && 0 <= q < j + 1 implies #[trigger] entry_related(
                            xs[p],
                            ys[q],
                            true,
                        ) by {
                            if p == i && q < j {
                                assert(scalar_lt(key_of(ys[q]), key_of(xs[p])));
                            } else if p < i && q == j {
                                assert(scalar_lt(key_of(xs[p]), key_of(ys[q])));
                            }
                        }
                        assert forall|q: int| 0 <= q < j + 1 implies (value_view(
                            (#[trigger] out@[q]).key,
                        ), value_view(out@[q].value)) == ys[q] by {}
                        if !modified {
                            assert forall|p: int| 0 <= p < i + 1 implies #[trigger] xs[p]
                                == ys[p] by {}
                        }
                    }
                    i = i + 1;
                    j = j + 1;
                },
                Err(err) => {
                    proof {
                        assert(!entry_related(xs[i as int], ys[j as int], true));
                        lemma_map_all(xs, ys, true);
                    }
                    return (out, Err(err));
                },
            }
        } else if step == 1 {
            let _gone = rest.remove(0);
            proof {
                assert forall|p: int, q: int|
                    0 <= p < i + 1 && j <= q < m implies scalar_lt(
                    key_of(#[trigger] xs[p]),
                    key_of(#[trigger] ys[q]),
                ) by {
                    if p == i && q > j {
                        assert(scalar_lt(key_of(ys[j as int]), key_of(ys[q])));
                        lemma_scalar_lt_transitive(key_of(xs[p]), key_of(ys[j as int]), key_of(ys[q]));
                    }
                }
                assert forall|p: int, q: int|
                    0 <= p < i + 1 && 0 <= q < j implies #[trigger] entry_related(
                    xs[p],
                    ys[q],
                    true,
                ) by {
                    if p == i {
                        assert(scalar_lt(key_of(ys[q]), key_of(xs[p])));
                    }
                }
                if xs == ys {
                    assert(xs[i as int] == ys[i as int]);
                }
            }
            modified = true;
            i = i + 1;
        } else {
            let c = MapEntry { key: clone_value(&update[j].key), value: clone_value(&update[j].value) };
            out.push(c);
            proof {
                assert forall|p: int, q: int|
                    0 <= q < j + 1 && i <= p < n implies scalar_lt(
                    key_of(#[trigger] ys[q]),
                    key_of(#[trigger] xs[p]),
                ) by {
                    if q == j && p > i {
                        assert(scalar_lt(key_of(xs[i as int]), key_of(xs[p])));
                        lemma_scalar_lt_transitive(key_of(ys[q]), key_of(xs[i as int]), key_of(xs[p]));
                    }
                }
                assert forall|p: int, q: int|
                    0 <= p < i && 0 <= q < j + 1 implies #[trigger] entry_related(
                    xs[p],
                    ys[q],
                    true,
                ) by {
                    if q == j {
                        assert(scalar_lt(key_of(xs[p]), key_of(ys[q])));
                    }
                }
                assert forall|q: int| 0 <= q < j + 1 implies (value_view(
                    (#[trigger] out@[q]).key,
                ), value_view(out@[q].value)) == ys[q] by {}
                if xs == ys {
                    assert(xs[j as int] == ys[j as int]);
                }
            }
            modified = true;
            j = j + 1;
        }
    }
    proof {
        lemma_map_all(xs, ys, true);
        lemma_entries_view(out@);
        assert(entries_view(out@) =~= ys);
        if !modified {
            assert(xs =~= ys);
        }
    }
    (out, Ok(modified))
}

// ---------------------------------------------------------------------
// Entry point

/// Updates `existing` in place so that it equals `update`, visiting both
/// trees together and writing only where they differ. Returns whether
/// anything changed.
///
/// Both trees must describe values of Rust types: they are well formed and
/// typed alike wherever their type names meet. The update fails when the
/// root types differ (`Incompatible`, with `existing` left as it was), when
/// two arrays of one type differ in length, when a map key is not a scalar,
/// or when two scalars of one type name are of different kinds.
pub fn update_reflect(existing: &mut ReflectValue, update: &ReflectValue) -> (r: Result<
    bool,
    UpdateError,
>)
    requires
        wf(value_view(*old(existing))),
        wf(value_view(*update)),
        well_typed(value_view(*old(existing)), value_view(*update)),
    ensures
        (r is Ok) == update_ok(value_view(*old(existing)), value_view(*update)),
        r is Ok ==> value_view(*final(existing)) == value_view(*update),
        r matches Ok(m) ==> m == (value_view(*old(existing)) != value_view(*update)),
        old(existing).type_ident@ != update.type_ident@ ==> value_view(*final(existing))
            == value_view(*old(existing)),
        old(existing).type_ident@ != update.type_ident@ ==> (r matches Err(
            UpdateError::Incompatible { existing: e, update: u },
        ) && e@ == old(existing).type_ident@ && u@ == update.type_ident@),
        scalar_kinds_differ(value_view(*old(existing)), value_view(*update)) ==> value_view(
            *final(existing),
        ) == value_view(*old(existing)),
        scalar_kinds_differ(value_view(*old(existing)), value_view(*update)) ==> (r matches Err(
            UpdateError::Incompatible { existing: e, update: u },
        ) && e@ == old(existing).type_ident@ && u@ == update.type_ident@),
        maps_with_non_scalar_keys(value_view(*old(existing)), value_view(*update)) ==> r matches Err(
            UpdateError::NonScalarKeys,
        ),
        arrays_of_unequal_length(value_view(*old(existing)), value_view(*update)) ==> r matches Err(
            UpdateError::UnequalArrays,
        ),
{
    let mut taken = ReflectValue { type_ident: String::new(), data: ReflectData::Opaque(Vec::new()) };
    std::mem::swap(&mut taken, existing);
    let (v, res) = update_value(taken, update);
    *existing = v;
    res
}

/// Turns an optional result inside out: `None` becomes `Ok(None)`.
pub fn opt_err<T, E>(arg: Option<Result<T, E>>) -> (r: Result<Option<T>, E>)
    ensures
        arg is None ==> r matches Ok(None),
        arg matches Some(Ok(x)) ==> r matches Ok(Some(y)) && y == x,
        arg matches Some(Err(e)) ==> r matches Err(f) && f == e,
{
    match arg {
        None => Ok(None),
        Some(Ok(x)) => Ok(Some(x)),
        Some(Err(e)) => Err(e),
    }
}

// ---------------------------------------------------------------------
// Laws

/// Every well-formed tree is typed alike with itself. So once an update
/// has succeeded (and the existing tree equals the update), the same update
/// may be applied again: its precondition holds, and by the contract of
/// [`update_reflect`] it reports no change when it succeeds.
pub proof fn law_self_typed(v: ValueV)
    requires
        wf(v),
    ensures
        relate(v, v, false),
    decreases v,
{
    match v.data {
        DataV::Scalar(_) => {},
        DataV::Opaque(_) => {},
        DataV::Struct(fs) => {
            lemma_self_typed_seq(v, fs);
        },
        DataV::TupleStruct(fs) => {
            lemma_self_typed_seq(v, fs);
        },
        DataV::Tuple(fs) => {
            lemma_self_typed_seq(v, fs);
        },
        DataV::Enum(_, _, fs) => {
            lemma_self_typed_seq(v, fs);
        },
        DataV::List(fs) => {
            lemma_self_typed_seq(v, fs);
            lemma_list_pairs(fs, fs, false);
            lemma_pairs(fs, fs, false);
            assert forall|i: int| 0 <= i < fs.len() implies #[trigger] relate(
                element_for(fs, fs, i),
                fs[i],
                false,
            ) by {
                assert(relate(fs[i], fs[i], false));
            }
        },
        DataV::Array(fs) => {
            lemma_self_typed_seq(v, fs);
        },
        DataV::Mapping(es) => {
            lemma_entries_wf(es);
            lemma_map_all(es, es, false);
            assert forall|i: int, j: int|
                0 <= i < es.len() && 0 <= j < es.len() implies #[trigger] entry_related(
                es[i],
                es[j],
                false,
            ) by {
                if same_key(es[i].0, es[j].0) {
                    assert(i == j);
                    assert(decreases_to!(v => v.data));
                    assert(decreases_to!(v.data => es));
                    assert(decreases_to!(es => es[i]));
                    assert(decreases_to!(es[i] => es[i].1));
                    law_self_typed(es[i].1);
                }
            }
        },
    }
}

/// The fields of a well-formed tree are each typed alike with themselves.
proof fn lemma_self_typed_seq(v: ValueV, fs: Seq<ValueV>)
    requires
        wf(v),
        v.data == DataV::Struct(fs) || v.data == DataV::TupleStruct(fs) || v.data == DataV::Tuple(fs)
            || v.data is Enum && v.data->Enum_2 == fs || v.data == DataV::List(fs) || v.data
            == DataV::Array(fs),
    ensures
        pairs(fs, fs, false),
        forall|i: int| 0 <= i < fs.len() ==> #[trigger] relate(fs[i], fs[i], false),
    decreases v, 0nat,
{
    lemma_all_wf(fs);
    lemma_pairs(fs, fs, false);
    assert forall|i: int| 0 <= i < fs.len() implies #[trigger] relate(fs[i], fs[i], false) by {
        assert(decreases_to!(v => v.data));
        assert(decreases_to!(v.data => fs));
        assert(decreases_to!(fs => fs[i]));
        law_self_typed(fs[i]);
    }
}

/// Every map in the tree has scalar keys.
pub open spec fn scalar_keyed(v: ValueV) -> bool
    decreases v, 0nat,
{
    match v.data {
        DataV::Scalar(_) => true,
        DataV::Opaque(_) => true,
        DataV::Struct(fs) => all_scalar_keyed(fs),
        DataV::TupleStruct(fs) => all_scalar_keyed(fs),
        DataV::Tuple(fs) => all_scalar_keyed(fs),
        DataV::List(fs) => all_scalar_keyed(fs),
        DataV::Array(fs) => all_scalar_keyed(fs),
        DataV::Enum(_, _, fs) => all_scalar_keyed(fs),
        DataV::Mapping(es) => keys_are_scalars(es) && values_scalar_keyed(es),
    }
}

/// Every tree of a sequence has only maps with scalar keys.
pub open spec fn all_scalar_keyed(s: Seq<ValueV>) -> bool
    decreases s, 0nat,
{
    if s.len() == 0 {
        true
    } else {
        all_scalar_keyed(s.subrange(0, s.len() - 1)) && scalar_keyed(s[s.len() - 1])
    }
}

/// Every value of a map has only maps with scalar keys.
pub open spec fn values_scalar_keyed(s: Seq<(ValueV, ValueV)>) -> bool
    decreases s, 0nat,
{
    if s.len() == 0 {
        true
    } else {
        values_scalar_keyed(s.subrange(0, s.len() - 1)) && scalar_keyed(s[s.len() - 1].1)
    }
}

proof fn lemma_all_scalar_keyed(s: Seq<ValueV>)
    ensures
        all_scalar_keyed(s) == (forall|i: int| 0 <= i < s.len() ==> #[trigger] scalar_keyed(s[i])),
    decreases s.len(),
{
    if s.len() > 0 {
        let p = s.subrange(0, s.len() - 1);
        lemma_all_scalar_keyed(p);
        assert(all_scalar_keyed(s) == (all_scalar_keyed(p) && scalar_keyed(s[s.len() - 1])));
        if forall|i: int| 0 <= i < s.len() ==> #[trigger] scalar_keyed(s[i]) {
            assert forall|i: int| 0 <= i < p.len() implies #[trigger] scalar_keyed(p[i]) by {
                assert(p[i] == s[i]);
            }
        }
        if all_scalar_keyed(s) {
            assert forall|i: int| 0 <= i < s.len() implies #[trigger] scalar_keyed(s[i]) by {
                if i < s.len() - 1 {
                    assert(p[i] == s[i]);
                }
            }
        }
    }
}

proof fn lemma_values_scalar_keyed(s: Seq<(ValueV, ValueV)>)
    ensures
        values_scalar_keyed(s) == (forall|i: int| 0 <= i < s.len() ==> scalar_keyed(#[trigger] s[i].1)),
    decreases s.len(),
{
    if s.len() > 0 {
        let p = s.subrange(0, s.len() - 1);
        lemma_values_scalar_keyed(p);
        assert(values_scalar_keyed(s) == (values_scalar_keyed(p) && scalar_keyed(s[s.len() - 1].1)));
        if forall|i: int| 0 <= i < s.len() ==> scalar_keyed(#[trigger] s[i].1) {
            assert forall|i: int| 0 <= i < p.len() implies scalar_keyed(#[trigger] p[i].1) by {
                assert(p[i] == s[i]);
            }
        }
        if values_scalar_keyed(s) {
            assert forall|i: int| 0 <= i < s.len() implies scalar_keyed(#[trigger] s[i].1) by {
                if i < s.len() - 1 {
                    assert(p[i] == s[i]);
                }
            }
        }
    }
}

/// The fields of a well-formed tree can each be updated from themselves
/// exactly when all of them have only maps with scalar keys.
proof fn lemma_self_update_seq(v: ValueV, fs: Seq<ValueV>)
    requires
        wf(v),
        v.data == DataV::Struct(fs) || v.data == DataV::TupleStruct(fs) || v.data == DataV::Tuple(fs)
            || v.data is Enum && v.data->Enum_2 == fs || v.data == DataV::List(fs) || v.data
            == DataV::Array(fs),
    ensures
        pairs(fs, fs, true) == all_scalar_keyed(fs),
        list_pairs(fs, fs, true) == all_scalar_keyed(fs),
    decreases v, 0nat,
{
    lemma_all_wf(fs);
    lemma_all_scalar_keyed(fs);
    lemma_pairs(fs, fs, true);
    lemma_list_pairs(fs, fs, true);
    assert forall|i: int| 0 <= i < fs.len() implies #[trigger] relate(fs[i], fs[i], true)
        == scalar_keyed(fs[i]) by {
        assert(decreases_to!(v => v.data));
        assert(decreases_to!(v.data => fs));
        assert(decreases_to!(fs => fs[i]));
        law_self_update(fs[i]);
    }
    if all_scalar_keyed(fs) {
        assert forall|i: int| 0 <= i < fs.len() implies #[trigger] relate(fs[i], fs[i], true) by {
            assert(scalar_keyed(fs[i]));
        }
        assert forall|i: int| 0 <= i < fs.len() implies #[trigger] relate(
            element_for(fs, fs, i),
            fs[i],
            true,
        ) by {
            assert(element_for(fs, fs, i) == fs[i]);
            assert(scalar_keyed(fs[i]));
        }
    } else {
        let k = choose|i: int| 0 <= i < fs.len() && !scalar_keyed(#[trigger] fs[i]);
        assert(!relate(fs[k], fs[k], true));
        assert(element_for(fs, fs, k) == fs[k]);
    }
}

/// Two scalars of one type name and one kind may be updated one from the
/// other, and the update succeeds: by the contract of [`update_reflect`]
/// the existing value then becomes the new one, and the update reports a
/// change exactly when the two differ.
pub proof fn law_scalar_update(a: ValueV, b: ValueV)
    requires
        a.type_ident == b.type_ident,
        a.data is Scalar,
        b.data is Scalar,
        scalar_rank(a.data->Scalar_0) == scalar_rank(b.data->Scalar_0),
    ensures
        wf(a),
        wf(b),
        well_typed(a, b),
        update_ok(a, b),
{
}

/// Updating a well-formed tree from itself succeeds exactly when every map
/// in it has scalar keys; by the contract of [`update_reflect`] such an
/// update then reports no change.
pub proof fn law_self_update(v: ValueV)
    requires
        wf(v),
    ensures
        update_ok(v, v) == scalar_keyed(v),
    decreases v,
{
    match v.data {
        DataV::Scalar(_) => {},
        DataV::Opaque(_) => {},
        DataV::Mapping(es) => {
            lemma_entries_wf(es);
            lemma_map_all(es, es, true);
            lemma_values_scalar_keyed(es);
            assert forall|i: int| 0 <= i < es.len() implies relate(#[trigger] es[i].1, es[i].1, true)
                == scalar_keyed(es[i].1) by {
                assert(decreases_to!(v => v.data));
                assert(decreases_to!(v.data => es));
                assert(decreases_to!(es => es[i]));
                assert(decreases_to!(es[i] => es[i].1));
                assert(wf(es[i].0));
                law_self_update(es[i].1);
            }
            if keys_are_scalars(es) {
                if values_scalar_keyed(es) {
                    assert forall|i: int, j: int|
                        0 <= i < es.len() && 0 <= j < es.len() implies #[trigger] entry_related(
                        es[i],
                        es[j],
                        true,
                    ) by {
                        if same_key(es[i].0, es[j].0) {
                            assert(i == j);
                            assert(scalar_keyed(es[i].1));
                        }
                    }
                } else {
                    let k = choose|i: int| 0 <= i < es.len() && !scalar_keyed(#[trigger] es[i].1);
                    assert(is_scalar_key(es[k].0));
                    assert(same_key(es[k].0, es[k].0));
                    assert(!entry_related(es[k], es[k], true));
                }
            }
            assert(update_ok(v, v) == scalar_keyed(v));
        },
        DataV::Struct(fs) => {
            lemma_self_update_seq(v, fs);
        },
        DataV::TupleStruct(fs) => {
            lemma_self_update_seq(v, fs);
        },
        DataV::Tuple(fs) => {
            lemma_self_update_seq(v, fs);
        },
        DataV::Enum(_, _, fs) => {
            lemma_self_update_seq(v, fs);
        },
        DataV::List(fs) => {
            lemma_self_update_seq(v, fs);
        },
        DataV::Array(fs) => {
            lemma_self_update_seq(v, fs);
        },
    }
}

// ---------------------------------------------------------------------
// Checks of what the update requires

/// Whether a tree is well formed.
pub fn is_well_formed(v: &ReflectValue) -> (r: bool)
    ensures
        r == wf(value_view(*v)),
    decreases v, 3nat,
{
    proof {
        assert(decreases_to!(*v => v.data));
    }
    match &v.data {
        ReflectData::Scalar(_) => true,
        ReflectData::Opaque(_) => true,
        ReflectData::Struct(fs) => all_well_formed(fs),
        ReflectData::TupleStruct(fs) => all_well_formed(fs),
        ReflectData::Tuple(fs) => all_well_formed(fs),
        ReflectData::List(fs) => all_well_formed(fs),
        ReflectData::Array(fs) => all_well_formed(fs),
        ReflectData::Enum(_, kind, fs) => {
            let shape = match kind {
                VariantKind::Unit => fs.len() == 0,
                _ => true,
            };
            shape && all_well_formed(fs)
        },
        ReflectData::Mapping(es) => map_well_formed(es),
    }
}

/// Whether every tree of a list is well formed.
fn all_well_formed(fs: &Vec<ReflectValue>) -> (r: bool)
    ensures
        r == all_wf(values_view(fs@)),
    decreases fs, 1nat,
{
    proof {
        lemma_values_view(fs@);
        lemma_all_wf(values_view(fs@));
    }
    let mut i: usize = 0;
    while i < fs.len()
        invariant
            i <= fs@.len(),
            values_view(fs@).len() == fs@.len(),
            forall|j: int| 0 <= j < fs@.len() ==> #[trigger] values_view(fs@)[j] == value_view(fs@[j]),
            forall|j: int| 0 <= j < i ==> wf(#[trigger] values_view(fs@)[j]),
            all_wf(values_view(fs@)) == (forall|j: int| 0 <= j < values_view(fs@).len() ==> #[trigger] wf(values_view(fs@)[j])),
        decreases fs.len() - i,
    {
        proof {
            assert(decreases_to!(*fs => fs@));
            assert(decreases_to!(fs@ => fs@[i as int]));
        }
        if !is_well_formed(&fs[i]) {
            assert(!wf(values_view(fs@)[i as int]));
            return false;
        }
        i = i + 1;
    }
    true
}

/// Whether the keys and values of a map are well formed, no two keys are
/// the same, and scalar keys stand in ascending order.
fn map_well_formed(es: &Vec<MapEntry>) -> (r: bool)
    ensures
        r == ((keys_are_scalars(entries_view(es@)) ==> keys_ascending(entries_view(es@)))
            && keys_unique(entries_view(es@)) && entries_wf(entries_view(es@))),
    decreases es, 1nat,
{
    let ghost xs = entries_view(es@);
    proof {
        lemma_entries_view(es@);
        lemma_entries_wf(xs);
    }
    let mut i: usize = 0;
    while i < es.len()
        invariant
            xs == entries_view(es@),
            i <= es@.len(),
            xs.len() == es@.len(),
            forall|j: int| 0 <= j < es@.len() ==> #[trigger] xs[j] == (value_view(es@[j].key), value_view(es@[j].value)),
            forall|j: int| 0 <= j < i ==> wf((#[trigger] xs[j]).0) && wf(xs[j].1),
        decreases es.len() - i,
    {
        proof {
            assert(decreases_to!(*es => es@));
            assert(decreases_to!(es@ => es@[i as int]));
            assert(decreases_to!(es@[i as int] => es@[i as int].key));
            assert(decreases_to!(es@[i as int] => es@[i as int].value));
        }
        let key_ok = is_well_formed(&es[i].key);
        let value_ok = is_well_formed(&es[i].value);
        assert(xs[i as int] == (value_view(es@[i as int].key), value_view(es@[i as int].value)));
        assert(key_ok == wf(xs[i as int].0));
        assert(value_ok == wf(xs[i as int].1));
        if !key_ok || !value_ok {
            proof {
                lemma_entries_wf(xs);
                assert(!(wf(xs[i as int].0) && wf(xs[i as int].1)));
            }
            return false;
        }
        i = i + 1;
    }
    proof {
        lemma_entries_wf(xs);
        assert forall|j: int| 0 <= j < xs.len() implies wf(#[trigger] xs[j].0) && wf(xs[j].1) by {
            assert(wf(xs[j].0) && wf(xs[j].1));
        }
    }
    if !keys_distinct(es) {
        return false;
    }
    if keys_all_scalar(es) {
        keys_in_order(es)
    } else {
        true
    }
}

/// Whether no two keys of a map are the same scalar.
fn keys_distinct(es: &Vec<MapEntry>) -> (r: bool)
    ensures
        r == keys_unique(entries_view(es@)),
{
    let ghost xs = entries_view(es@);
    proof {
        lemma_entries_view(es@);
    }
    let mut i: usize = 0;
    while i < es.len()
        invariant
            xs == entries_view(es@),
            i <= es@.len(),
            xs.len() == es@.len(),
            forall|j: int| 0 <= j < es@.len() ==> #[trigger] xs[j] == (value_view(es@[j].key), value_view(es@[j].value)),
            forall|a: int, b: int| 0 <= a < i && 0 <= b < xs.len() && a != b ==> !same_key(#[trigger] xs[a].0, #[trigger] xs[b].0),
        decreases es.len() - i,
    {
        let mut j: usize = 0;
        while j < es.len()
            invariant
                xs == entries_view(es@),
                i < es@.len(),
                j <= es@.len(),
                xs.len() == es@.len(),
                forall|t: int| 0 <= t < es@.len() ==> #[trigger] xs[t] == (value_view(es@[t].key), value_view(es@[t].value)),
                forall|a: int, b: int| 0 <= a < i && 0 <= b < xs.len() && a != b ==> !same_key(#[trigger] xs[a].0, #[trigger] xs[b].0),
                forall|b: int| 0 <= b < j && b != i ==> !same_key(xs[i as int].0, #[trigger] xs[b].0),
            decreases es.len() - j,
        {
            if j != i {
                let same = match (&es[i].key.data, &es[j].key.data) {
                    (ReflectData::Scalar(x), ReflectData::Scalar(y)) => scalar_eq(x, y),
                    _ => false,
                };
                if same {
                    assert(same_key(xs[i as int].0, xs[j as int].0));
                    return false;
                }
            }
            j = j + 1;
        }
        i = i + 1;
    }
    proof {
        assert forall|a: int, b: int| 0 <= a < xs.len() && 0 <= b < xs.len() && a != b implies !same_key(
            #[trigger] xs[a].0,
            #[trigger] xs[b].0,
        ) by {}
    }
    true
}

/// Whether the scalar keys of a map stand in strictly ascending order.
fn keys_in_order(es: &Vec<MapEntry>) -> (r: bool)
    requires
        keys_are_scalars(entries_view(es@)),
    ensures
        r == keys_ascending(entries_view(es@)),
{
    let ghost xs = entries_view(es@);
    proof {
        lemma_entries_view(es@);
    }
    if es.len() == 0 {
        return true;
    }
    let mut i: usize = 1;
    while i < es.len()
        invariant
            xs == entries_view(es@),
            keys_are_scalars(xs),
            1 <= i <= es@.len(),
            xs.len() == es@.len(),
            forall|j: int| 0 <= j < es@.len() ==> #[trigger] xs[j] == (value_view(es@[j].key), value_view(es@[j].value)),
            forall|a: int, b: int| 0 <= a < b < i ==> scalar_lt(
                (#[trigger] xs[a]).0.data->Scalar_0,
                (#[trigger] xs[b]).0.data->Scalar_0,
            ),
        decreases es.len() - i,
    {
        assert(is_scalar_key(xs[i - 1].0) && is_scalar_key(xs[i as int].0));
        if compare_keys(&es[i - 1].key, &es[i].key) != 1 {
            proof {
                let a = xs[i - 1].0.data->Scalar_0;
                let b = xs[i as int].0.data->Scalar_0;
                lemma_scalar_lt_total(a, b);
            }
            return false;
        }
        proof {
            assert forall|a: int, b: int| 0 <= a < b < i + 1 implies scalar_lt(
                (#[trigger] xs[a]).0.data->Scalar_0,
                (#[trigger] xs[b]).0.data->Scalar_0,
            ) by {
                if b == i && a < i - 1 {
                    lemma_scalar_lt_transitive(
                        xs[a].0.data->Scalar_0,
                        xs[i - 1].0.data->Scalar_0,
                        xs[b].0.data->Scalar_0,
                    );
                }
            }
        }
        i = i + 1;
    }
    true
}

/// Whether two trees are typed alike, as values of the same Rust types
/// are ([`well_typed`]).
pub fn is_typed_alike(a: &ReflectValue, b: &ReflectValue) -> (r: bool)
    ensures
        r == well_typed(value_view(*a), value_view(*b)),
    decreases b, 3nat,
{
    if !(a.type_ident == b.type_ident) {
        return true;
    }
    proof {
        assert(decreases_to!(*b => b.data));
    }
    match (&a.data, &b.data) {
        (ReflectData::Scalar(_), ReflectData::Scalar(_)) => true,
        (ReflectData::Opaque(_), ReflectData::Opaque(_)) => true,
        (ReflectData::Struct(x), ReflectData::Struct(y)) => {
            proof {
                lemma_values_view(x@);
                lemma_values_view(y@);
            }
            x.len() == y.len() && pairs_typed(x, y)
        },
        (ReflectData::TupleStruct(x), ReflectData::TupleStruct(y)) => {
            proof {
                lemma_values_view(x@);
                lemma_values_view(y@);
            }
            x.len() == y.len() && pairs_typed(x, y)
        },
        (ReflectData::Tuple(x), ReflectData::Tuple(y)) => {
            proof {
                lemma_values_view(x@);
                lemma_values_view(y@);
            }
            x.len() == y.len() && pairs_typed(x, y)
        },
        (ReflectData::Enum(n1, k1, x), ReflectData::Enum(n2, k2, y)) => {
            proof {
                lemma_values_view(x@);
                lemma_values_view(y@);
            }
            if !(*n1 == *n2) {
                true
            } else {
                *k1 == *k2 && x.len() == y.len() && pairs_typed(x, y)
            }
        },
        (ReflectData::List(x), ReflectData::List(y)) => list_typed(x, y),
        (ReflectData::Array(x), ReflectData::Array(y)) => {
            proof {
                lemma_values_view(x@);
                lemma_values_view(y@);
            }
            x.len() != y.len() || pairs_typed(x, y)
        },
        (ReflectData::Mapping(x), ReflectData::Mapping(y)) => map_typed(x, y),
        _ => false,
    }
}

/// Whether two lists of one length are typed alike position by position.
fn pairs_typed(x: &Vec<ReflectValue>, y: &Vec<ReflectValue>) -> (r: bool)
    requires
        x@.len() == y@.len(),
    ensures
        r == pairs(values_view(x@), values_view(y@), false),
    decreases y, 2nat,
{
    let ghost xs = values_view(x@);
    let ghost ys = values_view(y@);
    proof {
        lemma_values_view(x@);
        lemma_values_view(y@);
        lemma_pairs(xs, ys, false);
    }
    let mut i: usize = 0;
    while i < y.len()
        invariant
            xs == values_view(x@),
            ys == values_view(y@),
            x@.len() == y@.len(),
            xs.len() == x@.len(),
            ys.len() == y@.len(),
            i <= y@.len(),
            forall|j: int| 0 <= j < x@.len() ==> #[trigger] xs[j] == value_view(x@[j]),
            forall|j: int| 0 <= j < y@.len() ==> #[trigger] ys[j] == value_view(y@[j]),
            forall|j: int| 0 <= j < i ==> #[trigger] relate(xs[j], ys[j], false),
            pairs(xs, ys, false) == (forall|j: int| 0 <= j < ys.len() ==> #[trigger] relate(xs[j], ys[j], false)),
        decreases y.len() - i,
    {
        proof {
            assert(decreases_to!(*y => y@));
            assert(decreases_to!(y@ => y@[i as int]));
        }
        let ok = is_typed_alike(&x[i], &y[i]);
        assert(ok == relate(xs[i as int], ys[i as int], false));
        if !ok {
            return false;
        }
        i = i + 1;
    }
    true
}

/// Whether a list, brought to the length of another, is typed alike with
/// it position by position ([`list_pairs`]).
fn list_typed(x: &Vec<ReflectValue>, y: &Vec<ReflectValue>) -> (r: bool)
    ensures
        r == list_pairs(values_view(x@), values_view(y@), false),
    decreases y, 2nat,
{
    let ghost xs = values_view(x@);
    let ghost ys = values_view(y@);
    proof {
        lemma_values_view(x@);
        lemma_values_view(y@);
        lemma_list_pairs(xs, ys, false);
    }
    let mut i: usize = 0;
    while i < y.len()
        invariant
            xs == values_view(x@),
            ys == values_view(y@),
            xs.len() == x@.len(),
            ys.len() == y@.len(),
            i <= y@.len(),
            forall|j: int| 0 <= j < x@.len() ==> #[trigger] xs[j] == value_view(x@[j]),
            forall|j: int| 0 <= j < y@.len() ==> #[trigger] ys[j] == value_view(y@[j]),
            forall|j: int| 0 <= j < i ==> #[trigger] relate(element_for(xs, ys, j), ys[j], false),
            list_pairs(xs, ys, false) == (forall|j: int|
                0 <= j < ys.len() ==> #[trigger] relate(element_for(xs, ys, j), ys[j], false)),
        decreases y.len() - i,
    {
        proof {
            assert(decreases_to!(*y => y@));
            assert(decreases_to!(y@ => y@[i as int]));
        }
        let ok = if i < x.len() {
            is_typed_alike(&x[i], &y[i])
        } else {
            is_typed_alike(&y[i], &y[i])
        };
        assert(ok == relate(element_for(xs, ys, i as int), ys[i as int], false));
        if !ok {
            return false;
        }
        i = i + 1;
    }
    true
}

/// Whether entries of two maps that share a key have keys of one type and
/// values typed alike ([`map_all`]).
fn map_typed(x: &Vec<MapEntry>, y: &Vec<MapEntry>) -> (r: bool)
    ensures
        r == map_all(entries_view(x@), entries_view(y@), false),
    decreases y, 2nat,
{
    let ghost xs = entries_view(x@);
    let ghost ys = entries_view(y@);
    proof {
        lemma_entries_view(x@);
        lemma_entries_view(y@);
        lemma_map_all(xs, ys, false);
    }
    let mut j: usize = 0;
    while j < y.len()
        invariant
            xs == entries_view(x@),
            ys == entries_view(y@),
            xs.len() == x@.len(),
            ys.len() == y@.len(),
            j <= y@.len(),
            forall|t: int| 0 <= t < x@.len() ==> #[trigger] xs[t] == (value_view(x@[t].key), value_view(x@[t].value)),
            forall|t: int| 0 <= t < y@.len() ==> #[trigger] ys[t] == (value_view(y@[t].key), value_view(y@[t].value)),
            forall|a: int, b: int| 0 <= a < xs.len() && 0 <= b < j ==> #[trigger] entry_related(xs[a], ys[b], false),
            map_all(xs, ys, false) == (forall|a: int, b: int|
                0 <= a < xs.len() && 0 <= b < ys.len() ==> #[trigger] entry_related(xs[a], ys[b], false)),
        decreases y.len() - j,
    {
        let mut i: usize = 0;
        while i < x.len()
            invariant
                xs == entries_view(x@),
                ys == entries_view(y@),
                xs.len() == x@.len(),
                ys.len() == y@.len(),
                j < y@.len(),
                i <= x@.len(),
                forall|t: int| 0 <= t < x@.len() ==> #[trigger] xs[t] == (value_view(x@[t].key), value_view(x@[t].value)),
                forall|t: int| 0 <= t < y@.len() ==> #[trigger] ys[t] == (value_view(y@[t].key), value_view(y@[t].value)),
                forall|a: int, b: int| 0 <= a < xs.len() && 0 <= b < j ==> #[trigger] entry_related(xs[a], ys[b], false),
                forall|a: int| 0 <= a < i ==> #[trigger] entry_related(xs[a], ys[j as int], false),
                map_all(xs, ys, false) == (forall|a: int, b: int|
                    0 <= a < xs.len() && 0 <= b < ys.len() ==> #[trigger] entry_related(xs[a], ys[b], false)),
            decreases x.len() - i,
        {
            assert(xs[i as int] == (value_view(x@[i as int].key), value_view(x@[i as int].value)));
            assert(ys[j as int] == (value_view(y@[j as int].key), value_view(y@[j as int].value)));
            let same = match (&x[i].key.data, &y[j].key.data) {
                (ReflectData::Scalar(p), ReflectData::Scalar(q)) => scalar_eq(p, q),
                _ => false,
            };
            assert(same == same_key(xs[i as int].0, ys[j as int].0));
            if same {
                if !(x[i].key.type_ident == y[j].key.type_ident) {
                    assert(!entry_related(xs[i as int], ys[j as int], false));
                    return false;
                }
                proof {
                    assert(decreases_to!(*y => y@));
                    assert(decreases_to!(y@ => y@[j as int]));
                    assert(decreases_to!(y@[j as int] => y@[j as int].value));
                }
                let ok = is_typed_alike(&x[i].value, &y[j].value);
                if !ok {
                    assert(!entry_related(xs[i as int], ys[j as int], false));
                    return false;
                }
            }
            i = i + 1;
        }
        j = j + 1;
    }
    true
}

} // verus!
