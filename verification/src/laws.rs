//! What holds of the conversions between native values and host objects,
//! whatever the values are.

use vstd::prelude::*;
use crate::error::ErrorKind;
use crate::marshal::{decoded, encoded, host_holds};
use crate::native::{Integer, NativeKind, NativeView};
use crate::value::{Kind, ValueView};

verus! {

/// Reading back what was written gives the value that was written: for a
/// native value of any kind that has an encoding, decoding that encoding at
/// the value's own kind succeeds with the same value.
pub proof fn lemma_round_trip(native: NativeView)
    requires
        encoded(native) is Ok,
    ensures
        decoded(native.kind(), encoded(native)->Ok_0) == Ok::<NativeView, ErrorKind>(native),
{
    match native {
        NativeView::Bools(v) => {
            let cells = encoded(native)->Ok_0->Logicals_0;
            assert(Seq::new(cells.len(), |i: int| cells[i] == crate::value::Logical::True) =~= v);
        },
        NativeView::Texts(v) => {
            let cells = encoded(native)->Ok_0->Texts_0;
            assert(Seq::new(cells.len(), |i: int| cells[i]->0) =~= v);
        },
        _ => {},
    }
}

/// What is read at a kind is of that kind.
pub proof fn lemma_decoded_has_kind(kind: NativeKind, value: ValueView)
    requires
        decoded(kind, value) is Ok,
    ensures
        decoded(kind, value)->Ok_0.kind() == kind,
{
}

/// An integer is written to the host exactly or not at all: where it is one
/// that the host's integers can hold, the host object holds that very
/// number, unchanged by the passage to 32 bits, and every other integer is
/// out of range, whatever its native width.
pub proof fn lemma_integer_exact_or_refused(x: Integer)
    ensures
        host_holds(x.value()) ==> encoded(NativeView::Int(x)) == Ok::<ValueView, ErrorKind>(
            ValueView::Integers(seq![x.value() as i32]),
        ) && (x.value() as i32) as int == x.value(),
        !host_holds(x.value()) ==> encoded(NativeView::Int(x)) == Err::<ValueView, ErrorKind>(
            ErrorKind::OutOfRange,
        ),
{
}

/// Whether the kind asks for text.
pub open spec fn asks_for_text(kind: NativeKind) -> bool {
    kind == NativeKind::Text || kind == NativeKind::OptText || kind == NativeKind::Texts
}

/// Text is read from text only: asked of any other object, of a numeric
/// vector in particular, it is a type mismatch, whatever the object holds.
pub proof fn lemma_text_from_text_only(kind: NativeKind, value: ValueView)
    requires
        asks_for_text(kind),
        value.kind() != Kind::Text,
    ensures
        decoded(kind, value) == Err::<NativeView, ErrorKind>(ErrorKind::TypeMismatch),
{
}

/// Numbers are read from numeric vectors only.
pub proof fn lemma_number_from_numbers_only(kind: NativeKind, value: ValueView)
    requires
        kind is Int || kind == NativeKind::Real || kind == NativeKind::OptInt || kind
            == NativeKind::Ints || kind == NativeKind::Reals,
        value.kind() != Kind::Integer,
        value.kind() != Kind::Real,
    ensures
        decoded(kind, value) == Err::<NativeView, ErrorKind>(ErrorKind::TypeMismatch),
{
}

} // verus!
