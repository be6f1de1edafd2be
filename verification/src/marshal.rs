//! Conversion between native values and host objects.
//!
//! `encode` says what the host object for a native value holds, and `decode`
//! reads a host object as a native value of a requested kind. Both are exact:
//! a number that the target cannot hold is refused, never cut to fit, and an
//! object of an incompatible type is refused, never coerced. Integer and real
//! vectors are compatible with every numeric kind; logical vectors, texts and
//! external pointers only with their own.

use vstd::prelude::*;
use crate::binary64::{
    integer_to_real, is_nan, real_integer, real_is_nan, real_of_integer, real_to_integer, NA_REAL,
};
use crate::error::{Error, ErrorKind};
use crate::native::{IntKind, Integer, Native, NativeKind, NativeView, strings_view};
use crate::value::{Logical, Value, ValueView, NA_INTEGER, texts_view, text_view};

verus! {

/// Whether the host's integer vectors can hold `n`: every 32-bit value but
/// the one that marks a missing element.
pub open spec fn host_holds(n: int) -> bool {
    -0x7fff_ffff <= n <= 0x7fff_ffff
}

/// The host's logical for a native boolean.
pub open spec fn logical_of(b: bool) -> Logical {
    if b {
        Logical::True
    } else {
        Logical::False
    }
}

/// The native boolean for a host logical, if it is not missing.
pub open spec fn logical_as_bool(cell: Logical) -> Option<bool> {
    match cell {
        Logical::True => Some(true),
        Logical::False => Some(false),
        Logical::Na => None,
    }
}

/// A host integer read as a native integer of the given type: none if it is
/// missing or the type cannot hold it.
pub open spec fn integer_as(kind: IntKind, cell: i32) -> Option<Integer> {
    if cell != NA_INTEGER && kind.holds(cell as int) {
        Some(kind.make(cell as int))
    } else {
        None
    }
}

/// A host real read as a native integer of the given type: none unless the
/// real is a whole number that the type can hold.
pub open spec fn real_as(kind: IntKind, bits: u64) -> Option<Integer> {
    match real_integer(bits) {
        Some(n) => if kind.holds(n) {
            Some(kind.make(n))
        } else {
            None
        },
        None => None,
    }
}

/// A host real read as a 32-bit integer.
pub open spec fn real_as_i32(bits: u64) -> Option<i32> {
    match real_integer(bits) {
        Some(n) => if IntKind::I32.holds(n) {
            Some(n as i32)
        } else {
            None
        },
        None => None,
    }
}

/// A host integer read as a real: the missing integer is the missing real,
/// and every other integer is the real that equals it.
pub open spec fn integer_as_real(cell: i32) -> u64 {
    if cell == NA_INTEGER {
        NA_REAL
    } else {
        real_of_integer(cell as int)
    }
}

/// Whether none of the integers is the marker for a missing one.
pub open spec fn none_missing(cells: Seq<i32>) -> bool {
    forall|i: int| 0 <= i < cells.len() ==> cells[i] != NA_INTEGER
}

/// Whether every real is a whole number that fits in 32 bits.
pub open spec fn all_whole(cells: Seq<u64>) -> bool {
    forall|i: int| 0 <= i < cells.len() ==> real_as_i32(cells[i]) is Some
}

/// Whether none of the logicals is missing.
pub open spec fn all_decided(cells: Seq<Logical>) -> bool {
    forall|i: int| 0 <= i < cells.len() ==> cells[i] != Logical::Na
}

/// Whether none of the texts is missing.
pub open spec fn all_written(cells: Seq<Option<Seq<char>>>) -> bool {
    forall|i: int| 0 <= i < cells.len() ==> cells[i] is Some
}

/// What the host object for a native value holds, or why there is none.
///
/// Only integers can fail: the host's integers are 32 bits wide, and the
/// smallest 32-bit value is taken by the marker for a missing element.
pub open spec fn encoded(native: NativeView) -> Result<ValueView, ErrorKind> {
    match native {
        NativeView::Unit => Ok(ValueView::Null),
        NativeView::Int(x) => if host_holds(x.value()) {
            Ok(ValueView::Integers(seq![x.value() as i32]))
        } else {
            Err(ErrorKind::OutOfRange)
        },
        NativeView::Bool(b) => Ok(ValueView::Logicals(seq![logical_of(b)])),
        NativeView::Real(bits) => Ok(ValueView::Reals(seq![bits])),
        NativeView::Text(s) => Ok(ValueView::Texts(seq![Some(s)])),
        NativeView::OptInt(x) => match x {
            Some(n) => if n != NA_INTEGER {
                Ok(ValueView::Integers(seq![n]))
            } else {
                Err(ErrorKind::OutOfRange)
            },
            None => Ok(ValueView::Integers(seq![NA_INTEGER])),
        },
        NativeView::OptBool(b) => Ok(
            ValueView::Logicals(
                seq![match b {
                    Some(b) => logical_of(b),
                    None => Logical::Na,
                }],
            ),
        ),
        NativeView::OptText(s) => Ok(ValueView::Texts(seq![s])),
        NativeView::Ints(v) => if none_missing(v) {
            Ok(ValueView::Integers(v))
        } else {
            Err(ErrorKind::OutOfRange)
        },
        NativeView::Reals(v) => Ok(ValueView::Reals(v)),
        NativeView::Bools(v) => Ok(ValueView::Logicals(Seq::new(v.len(), |i: int| logical_of(v[i])))),
        NativeView::Texts(v) => Ok(ValueView::Texts(Seq::new(v.len(), |i: int| Some(v[i])))),
        NativeView::Opaque(address) => Ok(ValueView::External(address)),
    }
}

/// The only element of a vector read as one native value: a vector of any
/// other length is a length mismatch, and an element without a reading is
/// out of range.
pub open spec fn the_one(len: nat, reading: Option<NativeView>) -> Result<NativeView, ErrorKind> {
    if len != 1 {
        Err(ErrorKind::LengthMismatch)
    } else {
        match reading {
            Some(native) => Ok(native),
            None => Err(ErrorKind::OutOfRange),
        }
    }
}

/// An element's reading as a native value of the requested kind.
pub open spec fn wrap_int(reading: Option<Integer>) -> Option<NativeView> {
    match reading {
        Some(x) => Some(NativeView::Int(x)),
        None => None,
    }
}

/// A host object read as one native integer.
pub open spec fn decoded_int(kind: IntKind, value: ValueView) -> Result<NativeView, ErrorKind> {
    match value {
        ValueView::Integers(v) => the_one(v.len(), wrap_int(integer_as(kind, v[0]))),
        ValueView::Reals(v) => the_one(v.len(), wrap_int(real_as(kind, v[0]))),
        _ => Err(ErrorKind::TypeMismatch),
    }
}

/// A host object read as one boolean.
pub open spec fn decoded_bool(value: ValueView) -> Result<NativeView, ErrorKind> {
    match value {
        ValueView::Logicals(v) => the_one(
            v.len(),
            match logical_as_bool(v[0]) {
                Some(b) => Some(NativeView::Bool(b)),
                None => None,
            },
        ),
        _ => Err(ErrorKind::TypeMismatch),
    }
}

/// A host object read as one real.
pub open spec fn decoded_real(value: ValueView) -> Result<NativeView, ErrorKind> {
    match value {
        ValueView::Reals(v) => the_one(v.len(), Some(NativeView::Real(v[0]))),
        ValueView::Integers(v) => the_one(v.len(), Some(NativeView::Real(integer_as_real(v[0])))),
        _ => Err(ErrorKind::TypeMismatch),
    }
}

/// A host object read as one text.
pub open spec fn decoded_text(value: ValueView) -> Result<NativeView, ErrorKind> {
    match value {
        ValueView::Texts(v) => the_one(
            v.len(),
            match v[0] {
                Some(s) => Some(NativeView::Text(s)),
                None => None,
            },
        ),
        _ => Err(ErrorKind::TypeMismatch),
    }
}

/// A host object read as one 32-bit integer that may be missing. A real
/// that is not a number counts as missing.
pub open spec fn decoded_opt_int(value: ValueView) -> Result<NativeView, ErrorKind> {
    match value {
        ValueView::Integers(v) => the_one(
            v.len(),
            Some(NativeView::OptInt(if v[0] == NA_INTEGER { None } else { Some(v[0]) })),
        ),
        ValueView::Reals(v) => the_one(
            v.len(),
            if real_is_nan(v[0]) {
                Some(NativeView::OptInt(None))
            } else {
                match real_as_i32(v[0]) {
                    Some(n) => Some(NativeView::OptInt(Some(n))),
                    None => None,
                }
            },
        ),
        _ => Err(ErrorKind::TypeMismatch),
    }
}

/// A host object read as one boolean that may be missing.
pub open spec fn decoded_opt_bool(value: ValueView) -> Result<NativeView, ErrorKind> {
    match value {
        ValueView::Logicals(v) => the_one(v.len(), Some(NativeView::OptBool(logical_as_bool(v[0])))),
        _ => Err(ErrorKind::TypeMismatch),
    }
}

/// A host object read as one text that may be missing.
pub open spec fn decoded_opt_text(value: ValueView) -> Result<NativeView, ErrorKind> {
    match value {
        ValueView::Texts(v) => the_one(v.len(), Some(NativeView::OptText(v[0]))),
        _ => Err(ErrorKind::TypeMismatch),
    }
}

/// A host object read as a sequence of 32-bit integers.
pub open spec fn decoded_ints(value: ValueView) -> Result<NativeView, ErrorKind> {
    match value {
        ValueView::Integers(v) => if none_missing(v) {
            Ok(NativeView::Ints(v))
        } else {
            Err(ErrorKind::OutOfRange)
        },
        ValueView::Reals(v) => if all_whole(v) {
            Ok(NativeView::Ints(Seq::new(v.len(), |i: int| real_as_i32(v[i])->0)))
        } else {
            Err(ErrorKind::OutOfRange)
        },
        _ => Err(ErrorKind::TypeMismatch),
    }
}

/// A host object read as a sequence of reals.
pub open spec fn decoded_reals(value: ValueView) -> Result<NativeView, ErrorKind> {
    match value {
        ValueView::Reals(v) => Ok(NativeView::Reals(v)),
        ValueView::Integers(v) => Ok(
            NativeView::Reals(Seq::new(v.len(), |i: int| integer_as_real(v[i]))),
        ),
        _ => Err(ErrorKind::TypeMismatch),
    }
}

/// A host object read as a sequence of booleans.
pub open spec fn decoded_bools(value: ValueView) -> Result<NativeView, ErrorKind> {
    match value {
        ValueView::Logicals(v) => if all_decided(v) {
            Ok(NativeView::Bools(Seq::new(v.len(), |i: int| v[i] == Logical::True)))
        } else {
            Err(ErrorKind::OutOfRange)
        },
        _ => Err(ErrorKind::TypeMismatch),
    }
}

/// A host object read as a sequence of texts.
pub open spec fn decoded_texts(value: ValueView) -> Result<NativeView, ErrorKind> {
    match value {
        ValueView::Texts(v) => if all_written(v) {
            Ok(NativeView::Texts(Seq::new(v.len(), |i: int| v[i]->0)))
        } else {
            Err(ErrorKind::OutOfRange)
        },
        _ => Err(ErrorKind::TypeMismatch),
    }
}

/// A host object read as a native value of the requested kind, or why it
/// cannot be.
///
/// The type is judged first, then the length, then the elements: an object
/// whose type tag is incompatible with the kind is a type mismatch whatever
/// it holds; a single value asked of a vector whose length is not one is a
/// length mismatch; an element that the kind cannot hold, or a missing
/// element where the kind has no way to say so, is out of range.
pub open spec fn decoded(kind: NativeKind, value: ValueView) -> Result<NativeView, ErrorKind> {
    match kind {
        NativeKind::Unit => match value {
            ValueView::Null => Ok(NativeView::Unit),
            _ => Err(ErrorKind::TypeMismatch),
        },
        NativeKind::Int(k) => decoded_int(k, value),
        NativeKind::Bool => decoded_bool(value),
        NativeKind::Real => decoded_real(value),
        NativeKind::Text => decoded_text(value),
        NativeKind::OptInt => decoded_opt_int(value),
        NativeKind::OptBool => decoded_opt_bool(value),
        NativeKind::OptText => decoded_opt_text(value),
        NativeKind::Ints => decoded_ints(value),
        NativeKind::Reals => decoded_reals(value),
        NativeKind::Bools => decoded_bools(value),
        NativeKind::Texts => decoded_texts(value),
        NativeKind::Opaque => match value {
            ValueView::External(address) => Ok(NativeView::Opaque(address)),
            _ => Err(ErrorKind::TypeMismatch),
        },
    }
}

/// The model of a reading that may be absent.
pub open spec fn reading_view(reading: Option<Native>) -> Option<NativeView> {
    match reading {
        Some(native) => Some(native@),
        None => None,
    }
}

/// What an encoding returned, as plain values.
pub open spec fn value_outcome(result: Result<Value, Error>) -> Result<ValueView, ErrorKind> {
    match result {
        Ok(value) => Ok(value@),
        Err(e) => Err(e.kind),
    }
}

/// What a decoding returned, as plain values.
pub open spec fn native_outcome(result: Result<Native, Error>) -> Result<NativeView, ErrorKind> {
    match result {
        Ok(native) => Ok(native@),
        Err(e) => Err(e.kind),
    }
}

/// A vector of one element.
fn single<T>(x: T) -> (v: Vec<T>)
    ensures
        v@ == seq![x],
{
    let mut v: Vec<T> = Vec::new();
    v.push(x);
    assert(v@ =~= seq![x]);
    v
}

/// A copy of a vector of plain values.
fn copy_of<T: Copy>(source: &Vec<T>) -> (copy: Vec<T>)
    ensures
        copy@ == source@,
{
    let mut copy: Vec<T> = Vec::new();
    let mut i: usize = 0;
    while i < source.len()
        invariant
            i <= source@.len(),
            copy@ == source@.take(i as int),
        decreases source@.len() - i,
    {
        copy.push(source[i]);
        assert(copy@ =~= source@.take(i + 1));
        i += 1;
    }
    assert(copy@ =~= source@);
    copy
}

/// The host's logical for a native boolean.
fn to_logical(b: bool) -> (cell: Logical)
    ensures
        cell == logical_of(b),
{
    if b {
        Logical::True
    } else {
        Logical::False
    }
}

/// The native boolean for a host logical, if it is not missing.
fn read_logical(cell: Logical) -> (reading: Option<bool>)
    ensures
        reading == logical_as_bool(cell),
{
    match cell {
        Logical::True => Some(true),
        Logical::False => Some(false),
        Logical::Na => None,
    }
}

/// A host integer read as a native integer of the given type.
fn read_integer(kind: IntKind, cell: i32) -> (reading: Option<Integer>)
    ensures
        reading == integer_as(kind, cell),
{
    if cell == NA_INTEGER {
        None
    } else {
        kind.narrow(cell as i128)
    }
}

/// A host real read as a native integer of the given type.
fn read_real(kind: IntKind, bits: u64) -> (reading: Option<Integer>)
    ensures
        reading == real_as(kind, bits),
{
    match real_to_integer(bits) {
        Some(wide) => kind.narrow(wide),
        None => None,
    }
}

/// A host real read as a 32-bit integer.
fn read_real_i32(bits: u64) -> (reading: Option<i32>)
    ensures
        reading == real_as_i32(bits),
{
    match real_to_integer(bits) {
        Some(wide) => if -0x8000_0000 <= wide && wide <= 0x7fff_ffff {
            Some(wide as i32)
        } else {
            None
        },
        None => None,
    }
}

/// A host integer read as a real.
fn read_integer_as_real(cell: i32) -> (bits: u64)
    ensures
        bits == integer_as_real(cell),
{
    if cell == NA_INTEGER {
        NA_REAL
    } else {
        integer_to_real(cell)
    }
}

/// Whether no element is the marker for a missing integer.
fn all_present(cells: &Vec<i32>) -> (present: bool)
    ensures
        present == none_missing(cells@),
{
    let mut i: usize = 0;
    while i < cells.len()
        invariant
            i <= cells@.len(),
            forall|j: int| 0 <= j < i ==> cells@[j] != NA_INTEGER,
        decreases cells@.len() - i,
    {
        if cells[i] == NA_INTEGER {
            return false;
        }
        i += 1;
    }
    true
}

/// The host's logicals for native booleans.
fn encode_bools(source: &Vec<bool>) -> (cells: Vec<Logical>)
    ensures
        cells@ == Seq::new(source@.len(), |i: int| logical_of(source@[i])),
{
    let mut cells: Vec<Logical> = Vec::new();
    let mut i: usize = 0;
    while i < source.len()
        invariant
            i <= source@.len(),
            cells@.len() == i,
            forall|j: int| 0 <= j < i ==> cells@[j] == logical_of(source@[j]),
        decreases source@.len() - i,
    {
        cells.push(to_logical(source[i]));
        i += 1;
    }
    assert(cells@ =~= Seq::new(source@.len(), |i: int| logical_of(source@[i])));
    cells
}

/// The host's texts for native texts: none of them is missing.
fn encode_texts(source: &Vec<String>) -> (cells: Vec<Option<String>>)
    ensures
        texts_view(cells@) == Seq::new(source@.len(), |i: int| Some(source@[i]@)),
{
    let mut cells: Vec<Option<String>> = Vec::new();
    let mut i: usize = 0;
    while i < source.len()
        invariant
            i <= source@.len(),
            cells@.len() == i,
            forall|j: int| 0 <= j < i ==> text_view(cells@[j]) == Some(source@[j]@),
        decreases source@.len() - i,
    {
        cells.push(Some(source[i].clone()));
        i += 1;
    }
    assert(texts_view(cells@) =~= Seq::new(source@.len(), |i: int| Some(source@[i]@)));
    cells
}

/// What the host object for a native value holds.
///
/// Succeeds on every value but an integer that the host's 32-bit integers
/// cannot hold, which is out of range.
pub fn encode(native: &Native) -> (result: Result<Value, Error>)
    ensures
        value_outcome(result) == encoded(native@),
        result matches Err(e) ==> e.is_standard(e.kind),
{
    match native {
        Native::Unit => Ok(Value::Null),
        Native::Int(x) => {
            let wide: i128 = x.widen();
            if -0x7fff_ffff <= wide && wide <= 0x7fff_ffff {
                Ok(Value::Integers(single(wide as i32)))
            } else {
                Err(Error::new(ErrorKind::OutOfRange))
            }
        },
        Native::Bool(b) => Ok(Value::Logicals(single(to_logical(*b)))),
        Native::Real(bits) => Ok(Value::Reals(single(*bits))),
        Native::Text(s) => {
            let cells = single(Some(s.clone()));
            assert(texts_view(cells@) =~= seq![Some(s@)]);
            Ok(Value::Texts(cells))
        },
        Native::OptInt(x) => match x {
            Some(n) => if *n != NA_INTEGER {
                Ok(Value::Integers(single(*n)))
            } else {
                Err(Error::new(ErrorKind::OutOfRange))
            },
            None => Ok(Value::Integers(single(NA_INTEGER))),
        },
        Native::OptBool(b) => match b {
            Some(b) => Ok(Value::Logicals(single(to_logical(*b)))),
            None => Ok(Value::Logicals(single(Logical::Na))),
        },
        Native::OptText(s) => match s {
            Some(s) => {
                let cells = single(Some(s.clone()));
                assert(texts_view(cells@) =~= seq![Some(s@)]);
                Ok(Value::Texts(cells))
            },
            None => {
                let cells = single(None::<String>);
                assert(texts_view(cells@) =~= seq![None::<Seq<char>>]);
                Ok(Value::Texts(cells))
            },
        },
        Native::Ints(v) => if all_present(v) {
            Ok(Value::Integers(copy_of(v)))
        } else {
            Err(Error::new(ErrorKind::OutOfRange))
        },
        Native::Reals(v) => Ok(Value::Reals(copy_of(v))),
        Native::Bools(v) => Ok(Value::Logicals(encode_bools(v))),
        Native::Texts(v) => {
            let cells = encode_texts(v);
            assert(Seq::new(v@.len(), |i: int| Some(v@[i]@)) =~= Seq::new(
                strings_view(v@).len(),
                |i: int| Some(strings_view(v@)[i]),
            ));
            Ok(Value::Texts(cells))
        },
        Native::Opaque(address) => Ok(Value::External(*address)),
    }
}

/// The only element of a vector as one native value.
fn one(len: usize, reading: Option<Native>) -> (result: Result<Native, Error>)
    ensures
        native_outcome(result) == the_one(len as nat, reading_view(reading)),
        result matches Err(e) ==> e.is_standard(e.kind),
{
    if len != 1 {
        Err(Error::new(ErrorKind::LengthMismatch))
    } else {
        match reading {
            Some(native) => Ok(native),
            None => Err(Error::new(ErrorKind::OutOfRange)),
        }
    }
}

/// A native integer as a native value.
fn int_value(reading: Option<Integer>) -> (native: Option<Native>)
    ensures
        reading_view(native) == wrap_int(reading),
{
    match reading {
        Some(x) => Some(Native::Int(x)),
        None => None,
    }
}

/// A host object read as one native integer.
fn decode_int(kind: IntKind, value: &Value) -> (result: Result<Native, Error>)
    ensures
        native_outcome(result) == decoded_int(kind, value@),
        result matches Err(e) ==> e.is_standard(e.kind),
{
    match value {
        Value::Integers(v) => {
            let reading = if v.len() == 1 { int_value(read_integer(kind, v[0])) } else { None };
            one(v.len(), reading)
        },
        Value::Reals(v) => {
            let reading = if v.len() == 1 { int_value(read_real(kind, v[0])) } else { None };
            one(v.len(), reading)
        },
        _ => Err(Error::new(ErrorKind::TypeMismatch)),
    }
}

/// A host object read as one boolean.
fn decode_bool(value: &Value) -> (result: Result<Native, Error>)
    ensures
        native_outcome(result) == decoded_bool(value@),
        result matches Err(e) ==> e.is_standard(e.kind),
{
    match value {
        Value::Logicals(v) => {
            let reading = if v.len() == 1 {
                match read_logical(v[0]) {
                    Some(b) => Some(Native::Bool(b)),
                    None => None,
                }
            } else {
                None
            };
            one(v.len(), reading)
        },
        _ => Err(Error::new(ErrorKind::TypeMismatch)),
    }
}

/// A host object read as one real.
fn decode_real(value: &Value) -> (result: Result<Native, Error>)
    ensures
        native_outcome(result) == decoded_real(value@),
        result matches Err(e) ==> e.is_standard(e.kind),
{
    match value {
        Value::Reals(v) => {
            let reading = if v.len() == 1 { Some(Native::Real(v[0])) } else { None };
            one(v.len(), reading)
        },
        Value::Integers(v) => {
            let reading = if v.len() == 1 {
                Some(Native::Real(read_integer_as_real(v[0])))
            } else {
                None
            };
            one(v.len(), reading)
        },
        _ => Err(Error::new(ErrorKind::TypeMismatch)),
    }
}

/// A host object read as one text.
fn decode_text(value: &Value) -> (result: Result<Native, Error>)
    ensures
        native_outcome(result) == decoded_text(value@),
        result matches Err(e) ==> e.is_standard(e.kind),
{
    match value {
        Value::Texts(v) => {
            let reading = if v.len() == 1 {
                match &v[0] {
                    Some(s) => Some(Native::Text(s.clone())),
                    None => None,
                }
            } else {
                None
            };
            one(v.len(), reading)
        },
        _ => Err(Error::new(ErrorKind::TypeMismatch)),
    }
}

/// A host object read as one 32-bit integer that may be missing.
fn decode_opt_int(value: &Value) -> (result: Result<Native, Error>)
    ensures
        native_outcome(result) == decoded_opt_int(value@),
        result matches Err(e) ==> e.is_standard(e.kind),
{
    match value {
        Value::Integers(v) => {
            let reading = if v.len() == 1 {
                if v[0] == NA_INTEGER {
                    Some(Native::OptInt(None))
                } else {
                    Some(Native::OptInt(Some(v[0])))
                }
            } else {
                None
            };
            one(v.len(), reading)
        },
        Value::Reals(v) => {
            let reading = if v.len() == 1 {
                if is_nan(v[0]) {
                    Some(Native::OptInt(None))
                } else {
                    match read_real_i32(v[0]) {
                        Some(n) => Some(Native::OptInt(Some(n))),
                        None => None,
                    }
                }
            } else {
                None
            };
            one(v.len(), reading)
        },
        _ => Err(Error::new(ErrorKind::TypeMismatch)),
    }
}

/// A host object read as one boolean that may be missing.
fn decode_opt_bool(value: &Value) -> (result: Result<Native, Error>)
    ensures
        native_outcome(result) == decoded_opt_bool(value@),
        result matches Err(e) ==> e.is_standard(e.kind),
{
    match value {
        Value::Logicals(v) => {
            let reading = if v.len() == 1 {
                Some(Native::OptBool(read_logical(v[0])))
            } else {
                None
            };
            one(v.len(), reading)
        },
        _ => Err(Error::new(ErrorKind::TypeMismatch)),
    }
}

/// A host object read as one text that may be missing.
fn decode_opt_text(value: &Value) -> (result: Result<Native, Error>)
    ensures
        native_outcome(result) == decoded_opt_text(value@),
        result matches Err(e) ==> e.is_standard(e.kind),
{
    match value {
        Value::Texts(v) => {
            let reading = if v.len() == 1 {
                match &v[0] {
                    Some(s) => Some(Native::OptText(Some(s.clone()))),
                    None => Some(Native::OptText(None)),
                }
            } else {
                None
            };
            one(v.len(), reading)
        },
        _ => Err(Error::new(ErrorKind::TypeMismatch)),
    }
}

/// Host reals read as 32-bit integers: all of them, or none.
fn reals_to_ints(cells: &Vec<u64>) -> (result: Option<Vec<i32>>)
    ensures
        match result {
            Some(v) => {
                &&& all_whole(cells@)
                &&& v@ == Seq::new(cells@.len(), |i: int| real_as_i32(cells@[i])->0)
            },
            None => !all_whole(cells@),
        },
{
    let mut out: Vec<i32> = Vec::new();
    let mut i: usize = 0;
    while i < cells.len()
        invariant
            i <= cells@.len(),
            out@.len() == i,
            forall|j: int| 0 <= j < i ==> real_as_i32(cells@[j]) == Some(out@[j]),
        decreases cells@.len() - i,
    {
        match read_real_i32(cells[i]) {
            Some(n) => out.push(n),
            None => {
                assert(!(real_as_i32(cells@[i as int]) is Some));
                return None;
            },
        }
        i += 1;
    }
    assert(out@ =~= Seq::new(cells@.len(), |i: int| real_as_i32(cells@[i])->0));
    Some(out)
}

/// Host integers read as reals.
fn ints_to_reals(cells: &Vec<i32>) -> (out: Vec<u64>)
    ensures
        out@ == Seq::new(cells@.len(), |i: int| integer_as_real(cells@[i])),
{
    let mut out: Vec<u64> = Vec::new();
    let mut i: usize = 0;
    while i < cells.len()
        invariant
            i <= cells@.len(),
            out@.len() == i,
            forall|j: int| 0 <= j < i ==> out@[j] == integer_as_real(cells@[j]),
        decreases cells@.len() - i,
    {
        out.push(read_integer_as_real(cells[i]));
        i += 1;
    }
    assert(out@ =~= Seq::new(cells@.len(), |i: int| integer_as_real(cells@[i])));
    out
}

/// Host logicals read as booleans: all of them, or none.
fn logicals_to_bools(cells: &Vec<Logical>) -> (result: Option<Vec<bool>>)
    ensures
        match result {
            Some(v) => {
                &&& all_decided(cells@)
                &&& v@ == Seq::new(cells@.len(), |i: int| cells@[i] == Logical::True)
            },
            None => !all_decided(cells@),
        },
{
    let mut out: Vec<bool> = Vec::new();
    let mut i: usize = 0;
    while i < cells.len()
        invariant
            i <= cells@.len(),
            out@.len() == i,
            forall|j: int| 0 <= j < i ==> cells@[j] != Logical::Na,
            forall|j: int| 0 <= j < i ==> out@[j] == (cells@[j] == Logical::True),
        decreases cells@.len() - i,
    {
        match read_logical(cells[i]) {
            Some(b) => out.push(b),
            None => {
                assert(cells@[i as int] == Logical::Na);
                return None;
            },
        }
        i += 1;
    }
    assert(out@ =~= Seq::new(cells@.len(), |i: int| cells@[i] == Logical::True));
    Some(out)
}

/// Host texts read as native texts: all of them, or none.
fn texts_to_strings(cells: &Vec<Option<String>>) -> (result: Option<Vec<String>>)
    ensures
        match result {
            Some(v) => {
                &&& all_written(texts_view(cells@))
                &&& strings_view(v@) == Seq::new(cells@.len(), |i: int| texts_view(cells@)[i]->0)
            },
            None => !all_written(texts_view(cells@)),
        },
{
    let mut out: Vec<String> = Vec::new();
    let mut i: usize = 0;
    while i < cells.len()
        invariant
            i <= cells@.len(),
            out@.len() == i,
            forall|j: int| 0 <= j < i ==> text_view(cells@[j]) == Some(out@[j]@),
        decreases cells@.len() - i,
    {
        match &cells[i] {
            Some(s) => out.push(s.clone()),
            None => {
                assert(!(texts_view(cells@)[i as int] is Some));
                return None;
            },
        }
        i += 1;
    }
    assert(strings_view(out@) =~= Seq::new(cells@.len(), |i: int| texts_view(cells@)[i]->0));
    Some(out)
}

/// A host object read as a native value of the requested kind.
///
/// Succeeds exactly where `decoded` gives a value, and fails with the error
/// that `decoded` gives everywhere else.
pub fn decode(kind: NativeKind, value: &Value) -> (result: Result<Native, Error>)
    ensures
        native_outcome(result) == decoded(kind, value@),
        result matches Err(e) ==> e.is_standard(e.kind),
{
    match kind {
        NativeKind::Unit => match value {
            Value::Null => Ok(Native::Unit),
            _ => Err(Error::new(ErrorKind::TypeMismatch)),
        },
        NativeKind::Int(k) => decode_int(k, value),
        NativeKind::Bool => decode_bool(value),
        NativeKind::Real => decode_real(value),
        NativeKind::Text => decode_text(value),
        NativeKind::OptInt => decode_opt_int(value),
        NativeKind::OptBool => decode_opt_bool(value),
        NativeKind::OptText => decode_opt_text(value),
        NativeKind::Ints => match value {
            Value::Integers(v) => if all_present(v) {
                Ok(Native::Ints(copy_of(v)))
            } else {
                Err(Error::new(ErrorKind::OutOfRange))
            },
            Value::Reals(v) => match reals_to_ints(v) {
                Some(ints) => Ok(Native::Ints(ints)),
                None => Err(Error::new(ErrorKind::OutOfRange)),
            },
            _ => Err(Error::new(ErrorKind::TypeMismatch)),
        },
        NativeKind::Reals => match value {
            Value::Reals(v) => Ok(Native::Reals(copy_of(v))),
            Value::Integers(v) => Ok(Native::Reals(ints_to_reals(v))),
            _ => Err(Error::new(ErrorKind::TypeMismatch)),
        },
        NativeKind::Bools => match value {
            Value::Logicals(v) => match logicals_to_bools(v) {
                Some(bools) => Ok(Native::Bools(bools)),
                None => Err(Error::new(ErrorKind::OutOfRange)),
            },
            _ => Err(Error::new(ErrorKind::TypeMismatch)),
        },
        NativeKind::Texts => match value {
            Value::Texts(v) => match texts_to_strings(v) {
                Some(texts) => Ok(Native::Texts(texts)),
                None => Err(Error::new(ErrorKind::OutOfRange)),
            },
            _ => Err(Error::new(ErrorKind::TypeMismatch)),
        },
        NativeKind::Opaque => match value {
            Value::External(address) => Ok(Native::Opaque(*address)),
            _ => Err(Error::new(ErrorKind::TypeMismatch)),
        },
    }
}

} // verus!
