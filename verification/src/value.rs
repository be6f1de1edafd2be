//! The host's objects as plain values.
//!
//! The host knows five representations of data: logical, integer and real
//! vectors, vectors of text, and lists of named elements. Beside them stand
//! the null object and the external pointer, which carries the address of a
//! native object that the host cannot look into. Each atomic vector kind has
//! its own marker for a missing element.

use vstd::prelude::*;
use crate::binary64::{is_nan, real_is_nan};
use crate::error::{Error, ErrorKind};

verus! {

/// The host's missing integer: the smallest 32-bit value. The integers that
/// the host can hold are all the others.
pub const NA_INTEGER: i32 = i32::MIN;

/// One element of a logical vector: the host's booleans have three states.
#[derive(Clone, Copy, Debug, PartialEq, Eq, Structural, Hash)]
pub enum Logical {
    False,
    True,
    Na,
}

impl Logical {
    /// The logical that the host writes as the integer `code`: zero is
    /// false, the marker for a missing integer is the missing logical, and
    /// every other integer is true.
    pub open spec fn spec_from_code(code: i32) -> Logical {
        if code == 0 {
            Logical::False
        } else if code == NA_INTEGER {
            Logical::Na
        } else {
            Logical::True
        }
    }

    /// The integer that the host writes for the logical: 0 for false, 1 for
    /// true, and the marker for a missing integer for the missing logical.
    pub open spec fn spec_code(self) -> i32 {
        match self {
            Logical::False => 0,
            Logical::True => 1,
            Logical::Na => NA_INTEGER,
        }
    }

    /// The logical that the host writes as the integer `code`.
    #[verifier::when_used_as_spec(spec_from_code)]
    pub fn from_code(code: i32) -> (cell: Logical)
        ensures
            cell == Logical::spec_from_code(code),
    {
        if code == 0 {
            Logical::False
        } else if code == NA_INTEGER {
            Logical::Na
        } else {
            Logical::True
        }
    }

    /// The integer that the host writes for the logical. Read back with
    /// `from_code` it gives the same logical.
    #[verifier::when_used_as_spec(spec_code)]
    pub fn code(self) -> (code: i32)
        ensures
            code == self.spec_code(),
            Logical::spec_from_code(code) == self,
    {
        match self {
            Logical::False => 0,
            Logical::True => 1,
            Logical::Na => NA_INTEGER,
        }
    }
}

/// The type tag of a host object.
#[derive(Clone, Copy, Debug, PartialEq, Eq, Structural, Hash)]
pub enum Kind {
    Null,
    Logical,
    Integer,
    Real,
    Text,
    List,
    External,
}

/// What a host object holds.
///
/// Reals are kept as their 64-bit patterns. A missing text is `None`. A list
/// holds, in order, the name of each element and the reference of the object
/// that is the element; names may repeat.
#[derive(Clone, Debug, PartialEq, Eq)]
pub enum Value {
    Null,
    Logicals(Vec<Logical>),
    Integers(Vec<i32>),
    Reals(Vec<u64>),
    Texts(Vec<Option<String>>),
    List(Vec<(String, usize)>),
    External(usize),
}

/// The mathematical model of a `Value`.
pub enum ValueView {
    Null,
    Logicals(Seq<Logical>),
    Integers(Seq<i32>),
    Reals(Seq<u64>),
    Texts(Seq<Option<Seq<char>>>),
    List(Seq<(Seq<char>, usize)>),
    External(usize),
}

/// The characters of a text that may be missing.
pub open spec fn text_view(text: Option<String>) -> Option<Seq<char>> {
    match text {
        Some(s) => Some(s@),
        None => None,
    }
}

/// The characters of each text of a vector.
pub open spec fn texts_view(texts: Seq<Option<String>>) -> Seq<Option<Seq<char>>> {
    Seq::new(texts.len(), |i: int| text_view(texts[i]))
}

/// The entries of a list, each name as its characters.
pub open spec fn entries_view(entries: Seq<(String, usize)>) -> Seq<(Seq<char>, usize)> {
    Seq::new(entries.len(), |i: int| (entries[i].0@, entries[i].1))
}

impl View for Value {
    type V = ValueView;

    open spec fn view(&self) -> ValueView {
        match self {
            Value::Null => ValueView::Null,
            Value::Logicals(v) => ValueView::Logicals(v@),
            Value::Integers(v) => ValueView::Integers(v@),
            Value::Reals(v) => ValueView::Reals(v@),
            Value::Texts(v) => ValueView::Texts(texts_view(v@)),
            Value::List(v) => ValueView::List(entries_view(v@)),
            Value::External(address) => ValueView::External(*address),
        }
    }
}

impl ValueView {
    /// The type tag.
    pub open spec fn kind(self) -> Kind {
        match self {
            ValueView::Null => Kind::Null,
            ValueView::Logicals(_) => Kind::Logical,
            ValueView::Integers(_) => Kind::Integer,
            ValueView::Reals(_) => Kind::Real,
            ValueView::Texts(_) => Kind::Text,
            ValueView::List(_) => Kind::List,
            ValueView::External(_) => Kind::External,
        }
    }

    /// The number of elements. The null object has none, and an external
    /// pointer counts as one.
    pub open spec fn len(self) -> nat {
        match self {
            ValueView::Null => 0,
            ValueView::Logicals(v) => v.len(),
            ValueView::Integers(v) => v.len(),
            ValueView::Reals(v) => v.len(),
            ValueView::Texts(v) => v.len(),
            ValueView::List(v) => v.len(),
            ValueView::External(_) => 1,
        }
    }

    /// Whether element `i` exists and is missing. Only the elements of
    /// atomic vectors can be missing; a real is missing when it is not a
    /// number.
    pub open spec fn is_na_at(self, i: int) -> bool {
        &&& 0 <= i < self.len()
        &&& match self {
            ValueView::Logicals(v) => v[i] == Logical::Na,
            ValueView::Integers(v) => v[i] == NA_INTEGER,
            ValueView::Reals(v) => real_is_nan(v[i]),
            ValueView::Texts(v) => v[i] is None,
            _ => false,
        }
    }
}

/// The model of an object that may be absent.
pub open spec fn option_view(value: Option<Value>) -> Option<ValueView> {
    match value {
        Some(v) => Some(v@),
        None => None,
    }
}

impl ValueView {
    /// Whether this is one of the four kinds of vector whose elements are
    /// plain data.
    pub open spec fn is_atomic(self) -> bool {
        (self is Logicals) || (self is Integers) || (self is Reals) || (self is Texts)
    }

    /// The vector of one element that holds element `i` of an atomic vector;
    /// none past the end, and none for an object that is not an atomic vector.
    pub open spec fn element(self, i: int) -> Option<ValueView> {
        if 0 <= i && i < self.len() {
            match self {
                ValueView::Logicals(v) => Some(ValueView::Logicals(seq![v[i]])),
                ValueView::Integers(v) => Some(ValueView::Integers(seq![v[i]])),
                ValueView::Reals(v) => Some(ValueView::Reals(seq![v[i]])),
                ValueView::Texts(v) => Some(ValueView::Texts(seq![v[i]])),
                _ => None,
            }
        } else {
            None
        }
    }
}

/// The vector after one element was written: a length mismatch unless
/// exactly one element is given and the place exists.
pub open spec fn placed(len: nat, given: nat, i: int, written: ValueView) -> Result<
    ValueView,
    ErrorKind,
> {
    if given != 1 || !(0 <= i < len) {
        Err(ErrorKind::LengthMismatch)
    } else {
        Ok(written)
    }
}

impl ValueView {
    /// The atomic vector with element `i` replaced by the only element of
    /// `element`, which must be a vector of the same kind: any other pair of
    /// objects is a type mismatch.
    pub open spec fn put(self, i: int, element: ValueView) -> Result<ValueView, ErrorKind> {
        match (self, element) {
            (ValueView::Logicals(v), ValueView::Logicals(e)) => placed(
                v.len(),
                e.len(),
                i,
                ValueView::Logicals(v.update(i, e[0])),
            ),
            (ValueView::Integers(v), ValueView::Integers(e)) => placed(
                v.len(),
                e.len(),
                i,
                ValueView::Integers(v.update(i, e[0])),
            ),
            (ValueView::Reals(v), ValueView::Reals(e)) => placed(
                v.len(),
                e.len(),
                i,
                ValueView::Reals(v.update(i, e[0])),
            ),
            (ValueView::Texts(v), ValueView::Texts(e)) => placed(
                v.len(),
                e.len(),
                i,
                ValueView::Texts(v.update(i, e[0])),
            ),
            _ => Err(ErrorKind::TypeMismatch),
        }
    }
}

impl Value {
    /// The type tag.
    pub fn kind(&self) -> (kind: Kind)
        ensures
            kind == self@.kind(),
    {
        match self {
            Value::Null => Kind::Null,
            Value::Logicals(_) => Kind::Logical,
            Value::Integers(_) => Kind::Integer,
            Value::Reals(_) => Kind::Real,
            Value::Texts(_) => Kind::Text,
            Value::List(_) => Kind::List,
            Value::External(_) => Kind::External,
        }
    }

    /// The number of elements.
    pub fn len(&self) -> (len: usize)
        ensures
            len == self@.len(),
    {
        match self {
            Value::Null => 0,
            Value::Logicals(v) => v.len(),
            Value::Integers(v) => v.len(),
            Value::Reals(v) => v.len(),
            Value::Texts(v) => v.len(),
            Value::List(v) => v.len(),
            Value::External(_) => 1,
        }
    }

    /// Whether element `i` exists and is missing.
    pub fn is_na_at(&self, i: usize) -> (missing: bool)
        ensures
            missing == self@.is_na_at(i as int),
    {
        if i >= self.len() {
            return false;
        }
        match self {
            Value::Logicals(v) => v[i] == Logical::Na,
            Value::Integers(v) => v[i] == NA_INTEGER,
            Value::Reals(v) => is_nan(v[i]),
            Value::Texts(v) => v[i].is_none(),
            _ => false,
        }
    }
}

/// Whether two vectors of plain cells hold the same cells.
fn same_logicals(a: &Vec<Logical>, b: &Vec<Logical>) -> (same: bool)
    ensures
        same == (a@ == b@),
{
    if a.len() != b.len() {
        return false;
    }
    let mut i: usize = 0;
    while i < a.len()
        invariant
            a@.len() == b@.len(),
            i <= a@.len(),
            forall|j: int| 0 <= j < i ==> a@[j] == b@[j],
        decreases a@.len() - i,
    {
        if a[i] != b[i] {
            return false;
        }
        i += 1;
    }
    assert(a@ =~= b@);
    true
}

/// Whether two integer vectors hold the same integers.
fn same_integers(a: &Vec<i32>, b: &Vec<i32>) -> (same: bool)
    ensures
        same == (a@ == b@),
{
    if a.len() != b.len() {
        return false;
    }
    let mut i: usize = 0;
    while i < a.len()
        invariant
            a@.len() == b@.len(),
            i <= a@.len(),
            forall|j: int| 0 <= j < i ==> a@[j] == b@[j],
        decreases a@.len() - i,
    {
        if a[i] != b[i] {
            return false;
        }
        i += 1;
    }
    assert(a@ =~= b@);
    true
}

/// Whether two real vectors hold the same bit patterns.
fn same_reals(a: &Vec<u64>, b: &Vec<u64>) -> (same: bool)
    ensures
        same == (a@ == b@),
{
    if a.len() != b.len() {
        return false;
    }
    let mut i: usize = 0;
    while i < a.len()
        invariant
            a@.len() == b@.len(),
            i <= a@.len(),
            forall|j: int| 0 <= j < i ==> a@[j] == b@[j],
        decreases a@.len() - i,
    {
        if a[i] != b[i] {
            return false;
        }
        i += 1;
    }
    assert(a@ =~= b@);
    true
}

/// Whether two texts are both missing or hold the same characters.
fn same_text(a: &Option<String>, b: &Option<String>) -> (same: bool)
    ensures
        same == (text_view(*a) == text_view(*b)),
{
    match (a, b) {
        (Some(x), Some(y)) => *x == *y,
        (None, None) => true,
        _ => false,
    }
}

/// Whether two vectors of text hold the same texts.
fn same_texts(a: &Vec<Option<String>>, b: &Vec<Option<String>>) -> (same: bool)
    ensures
        same == (texts_view(a@) == texts_view(b@)),
{
    if a.len() != b.len() {
        assert(texts_view(a@).len() != texts_view(b@).len());
        return false;
    }
    let mut i: usize = 0;
    while i < a.len()
        invariant
            a@.len() == b@.len(),
            i <= a@.len(),
            forall|j: int| 0 <= j < i ==> text_view(a@[j]) == text_view(b@[j]),
        decreases a@.len() - i,
    {
        if !same_text(&a[i], &b[i]) {
            assert(texts_view(a@)[i as int] != texts_view(b@)[i as int]);
            return false;
        }
        i += 1;
    }
    assert(texts_view(a@) =~= texts_view(b@));
    true
}

/// Whether two lists hold the same references under the same names.
fn same_entries(a: &Vec<(String, usize)>, b: &Vec<(String, usize)>) -> (same: bool)
    ensures
        same == (entries_view(a@) == entries_view(b@)),
{
    if a.len() != b.len() {
        assert(entries_view(a@).len() != entries_view(b@).len());
        return false;
    }
    let mut i: usize = 0;
    while i < a.len()
        invariant
            a@.len() == b@.len(),
            i <= a@.len(),
            forall|j: int| 0 <= j < i ==> a@[j].0@ == b@[j].0@ && a@[j].1 == b@[j].1,
        decreases a@.len() - i,
    {
        if !(a[i].0 == b[i].0 && a[i].1 == b[i].1) {
            assert(entries_view(a@)[i as int] != entries_view(b@)[i as int]);
            return false;
        }
        i += 1;
    }
    assert(entries_view(a@) =~= entries_view(b@));
    true
}

impl Value {
    /// Whether both objects hold the same: the same kind, and the same
    /// elements in the same order. Reals are compared by their bit patterns,
    /// and lists by the names and references they hold.
    pub fn same_as(&self, other: &Value) -> (same: bool)
        ensures
            same == (self@ == other@),
    {
        match (self, other) {
            (Value::Null, Value::Null) => true,
            (Value::Logicals(a), Value::Logicals(b)) => same_logicals(a, b),
            (Value::Integers(a), Value::Integers(b)) => same_integers(a, b),
            (Value::Reals(a), Value::Reals(b)) => same_reals(a, b),
            (Value::Texts(a), Value::Texts(b)) => same_texts(a, b),
            (Value::List(a), Value::List(b)) => same_entries(a, b),
            (Value::External(a), Value::External(b)) => *a == *b,
            _ => false,
        }
    }

    /// The vector of one element that holds element `i` of an atomic vector.
    pub fn element(&self, i: usize) -> (element: Option<Value>)
        ensures
            option_view(element) == self@.element(i as int),
    {
        if i >= self.len() {
            return None;
        }
        match self {
            Value::Logicals(v) => {
                let mut one: Vec<Logical> = Vec::new();
                one.push(v[i]);
                assert(one@ =~= seq![v@[i as int]]);
                Some(Value::Logicals(one))
            },
            Value::Integers(v) => {
                let mut one: Vec<i32> = Vec::new();
                one.push(v[i]);
                assert(one@ =~= seq![v@[i as int]]);
                Some(Value::Integers(one))
            },
            Value::Reals(v) => {
                let mut one: Vec<u64> = Vec::new();
                one.push(v[i]);
                assert(one@ =~= seq![v@[i as int]]);
                Some(Value::Reals(one))
            },
            Value::Texts(v) => {
                let mut one: Vec<Option<String>> = Vec::new();
                one.push(v[i].clone());
                assert(texts_view(one@) =~= seq![texts_view(v@)[i as int]]);
                Some(Value::Texts(one))
            },
            _ => None,
        }
    }
}

impl Value {
    /// The logicals of a logical vector, to read in place; none for any
    /// other object.
    pub fn logicals(&self) -> (cells: Option<&[Logical]>)
        ensures
            match cells {
                Some(v) => self@ == ValueView::Logicals(v@),
                None => !(self@ is Logicals),
            },
    {
        match self {
            Value::Logicals(v) => Some(v.as_slice()),
            _ => None,
        }
    }

    /// The integers of an integer vector, to read in place; none for any
    /// other object.
    pub fn integers(&self) -> (cells: Option<&[i32]>)
        ensures
            match cells {
                Some(v) => self@ == ValueView::Integers(v@),
                None => !(self@ is Integers),
            },
    {
        match self {
            Value::Integers(v) => Some(v.as_slice()),
            _ => None,
        }
    }

    /// The bit patterns of a real vector, to read in place; none for any
    /// other object.
    pub fn reals(&self) -> (cells: Option<&[u64]>)
        ensures
            match cells {
                Some(v) => self@ == ValueView::Reals(v@),
                None => !(self@ is Reals),
            },
    {
        match self {
            Value::Reals(v) => Some(v.as_slice()),
            _ => None,
        }
    }

    /// The texts of a vector of text, to read in place; none for any other
    /// object.
    pub fn texts(&self) -> (cells: Option<&[Option<String>]>)
        ensures
            match cells {
                Some(v) => self@ == ValueView::Texts(texts_view(v@)),
                None => !(self@ is Texts),
            },
    {
        match self {
            Value::Texts(v) => Some(v.as_slice()),
            _ => None,
        }
    }

    /// Writes the only element of `element` over element `i` of this
    /// vector. On any error the vector is as it was.
    pub fn put(&mut self, i: usize, element: &Value) -> (result: Result<(), Error>)
        ensures
            match old(self)@.put(i as int, element@) {
                Ok(written) => result is Ok && final(self)@ == written,
                Err(kind) => {
                    &&& result matches Err(e)
                    &&& e.is_standard(kind)
                    &&& final(self)@ == old(self)@
                },
            },
    {
        match (self, element) {
            (Value::Logicals(v), Value::Logicals(e)) => {
                if e.len() != 1 || i >= v.len() {
                    return Err(Error::new(ErrorKind::LengthMismatch));
                }
                v[i] = e[0];
                Ok(())
            },
            (Value::Integers(v), Value::Integers(e)) => {
                if e.len() != 1 || i >= v.len() {
                    return Err(Error::new(ErrorKind::LengthMismatch));
                }
                v[i] = e[0];
                Ok(())
            },
            (Value::Reals(v), Value::Reals(e)) => {
                if e.len() != 1 || i >= v.len() {
                    return Err(Error::new(ErrorKind::LengthMismatch));
                }
                v[i] = e[0];
                Ok(())
            },
            (Value::Texts(v), Value::Texts(e)) => {
                if e.len() != 1 || i >= v.len() {
                    return Err(Error::new(ErrorKind::LengthMismatch));
                }
                v[i] = e[0].clone();
                assert(texts_view(v@) =~= (old(self)@->Texts_0).update(
                    i as int,
                    texts_view(e@)[0],
                ));
                Ok(())
            },
            _ => Err(Error::new(ErrorKind::TypeMismatch)),
        }
    }
}

} // verus!
