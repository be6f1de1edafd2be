//! The host's objects and its protection stack.
//!
//! `Host` is the part of the interpreter that native code deals with: the
//! table of its objects, each found by its reference, and the stack of the
//! references that native code protects from collection. Objects are made
//! here from native values and read back, handles are given out and taken
//! back, and the stack is kept in step with them.

use vstd::prelude::*;
use crate::error::{Error, ErrorKind};
use crate::handle::{
    dropped, dropped_all, entered, entered_all, lemma_entered_owned, lemma_reverse_drops_restore,
    made_in_order, raws_of, Handle, Ownership,
};
use crate::marshal::{decode, decoded, encode, encoded, native_outcome};
use crate::native::{Native, NativeKind, NativeView};
use crate::value::{entries_view, Kind, Value, ValueView};

verus! {

/// What is found at a reference: the object there, and the null object at a
/// reference that names no object.
pub open spec fn at(objects: Seq<ValueView>, raw: int) -> ValueView {
    if 0 <= raw < objects.len() {
        objects[raw]
    } else {
        ValueView::Null
    }
}

/// Whether the objects at two references hold the same: they are one
/// object, or both are lists of the same length whose elements hold the same
/// under the same names, one by one, or neither is a list and they hold the
/// same kind of vector with the same elements.
pub open spec fn alike(objects: Seq<ValueView>, a: int, b: int) -> bool
    decreases a + b, 2int,
{
    if a == b {
        true
    } else {
        match (at(objects, a), at(objects, b)) {
            (ValueView::List(xs), ValueView::List(ys)) => lists_alike(objects, xs, ys, a, b),
            (x, y) => x == y,
        }
    }
}

/// Whether two lists, which are the objects at `a` and `b`, have the same
/// length and, entry by entry, the same names for objects that hold the same.
pub open spec fn lists_alike(
    objects: Seq<ValueView>,
    xs: Seq<(Seq<char>, usize)>,
    ys: Seq<(Seq<char>, usize)>,
    a: int,
    b: int,
) -> bool
    decreases a + b, 1int,
{
    &&& xs.len() == ys.len()
    &&& forall|i: int|
        0 <= i < xs.len() ==> {
            &&& (#[trigger] xs[i]).0 == ys[i].0
            &&& xs[i].1 < a
            &&& ys[i].1 < b
            &&& alike(objects, xs[i].1 as int, ys[i].1 as int)
        }
}

/// What an object holds after a native value was written over its element
/// `i` through a handle of the given ownership, or why nothing was written.
///
/// Only the owner may write: through a borrowed handle the object is shared
/// with whoever keeps it alive, and writing to it is an internal error. The
/// native value must have an encoding, and that encoding be one element of
/// the object's own kind of vector.
pub open spec fn overwritten(object: ValueView, mode: Ownership, i: int, native: NativeView)
    -> Result<ValueView, ErrorKind> {
    if mode != Ownership::Owned {
        Err(ErrorKind::Internal)
    } else {
        match encoded(native) {
            Ok(element) => object.put(i, element),
            Err(kind) => Err(kind),
        }
    }
}

/// What reading one element returned, as plain values.
pub open spec fn item_outcome(item: Option<Result<Native, Error>>) -> Option<
    Result<NativeView, ErrorKind>,
> {
    match item {
        Some(result) => Some(native_outcome(result)),
        None => None,
    }
}

/// What reading element `i` of an object at the requested kind gives: past
/// the end and for an object that is not an atomic vector nothing, and else
/// what reading the vector of that one element gives.
pub open spec fn element_decoded(kind: NativeKind, value: ValueView, i: int) -> Option<
    Result<NativeView, ErrorKind>,
> {
    match value.element(i) {
        Some(e) => Some(decoded(kind, e)),
        None => None,
    }
}

/// The encodings of the first `count` values, each of which has one.
pub open spec fn encodings(natives: Seq<Native>, count: int) -> Seq<ValueView> {
    Seq::new(count as nat, |i: int| encoded(natives[i]@)->Ok_0)
}

/// The index of the first value that has no encoding; the number of values
/// if all have one.
pub open spec fn first_refused(natives: Seq<Native>) -> int
    decreases natives.len(),
{
    if natives.len() == 0 {
        0
    } else {
        let before = first_refused(natives.drop_last());
        if before < natives.len() - 1 || encoded(natives.last()@) is Err {
            before
        } else {
            natives.len() as int
        }
    }
}

/// Whether every entry of a list refers to an object below `limit`. Objects
/// that are not lists refer to nothing.
pub open spec fn entries_below(value: ValueView, limit: int) -> bool {
    match value {
        ValueView::List(entries) => refer_below(entries, limit),
        _ => true,
    }
}

/// Whether every entry refers to an object below `limit`.
pub open spec fn refer_below(entries: Seq<(Seq<char>, usize)>, limit: int) -> bool {
    forall|j: int| 0 <= j < entries.len() ==> (#[trigger] entries[j]).1 < limit
}

/// The list that holds the objects of the handles under the names given.
pub open spec fn list_of(entries: Seq<(String, Handle)>) -> ValueView {
    ValueView::List(Seq::new(entries.len(), |i: int| (entries[i].0@, entries[i].1.raw())))
}

/// The host's objects and its protection stack.
#[derive(Debug)]
pub struct Host {
    objects: Vec<Value>,
    protected: Vec<usize>,
}

impl Host {
    /// The objects, each at the index that is its reference.
    pub closed spec fn objects(&self) -> Seq<ValueView> {
        Seq::new(self.objects@.len(), |i: int| self.objects@[i]@)
    }

    /// The protection stack: the references entered and not yet taken off,
    /// the most recent one last.
    pub closed spec fn stack(&self) -> Seq<usize> {
        self.protected@
    }

    /// A list holds only objects that were there before it, and the
    /// protection stack only references of objects.
    pub open spec fn wf(&self) -> bool {
        &&& forall|i: int|
            0 <= i < self.objects().len() ==> entries_below(#[trigger] self.objects()[i], i)
        &&& forall|k: int|
            0 <= k < self.stack().len() ==> (#[trigger] self.stack()[k]) < self.objects().len()
    }

    /// Whether the handle refers to an object of this host.
    pub open spec fn has(&self, handle: Handle) -> bool {
        handle.raw() < self.objects().len()
    }

    /// The object that the handle refers to. A handle that refers to no
    /// object of this host reads as the null object.
    pub open spec fn object(&self, handle: Handle) -> ValueView {
        at(self.objects(), handle.raw() as int)
    }

    /// Whether each of the handles refers to an object of this host.
    pub open spec fn has_all(&self, entries: Seq<(String, Handle)>) -> bool {
        forall|i: int| 0 <= i < entries.len() ==> self.has((#[trigger] entries[i]).1)
    }

    /// Whether each of the handles is a borrowed handle to an object of
    /// this host.
    pub open spec fn lends(&self, entries: Seq<(String, Handle)>) -> bool {
        forall|i: int|
            0 <= i < entries.len() ==> {
                &&& (#[trigger] entries[i]).1.mode() == Ownership::Borrowed
                &&& self.has(entries[i].1)
            }
    }

    /// A host without objects.
    pub fn new() -> (host: Host)
        ensures
            host.wf(),
            host.objects() == Seq::<ValueView>::empty(),
            host.stack() == Seq::<usize>::empty(),
    {
        let host = Host { objects: Vec::new(), protected: Vec::new() };
        assert(host.objects() =~= Seq::<ValueView>::empty());
        host
    }

    /// The number of objects.
    pub fn size(&self) -> (size: usize)
        ensures
            size == self.objects().len(),
    {
        self.objects.len()
    }

    /// The number of entries of the protection stack.
    pub fn depth(&self) -> (depth: usize)
        ensures
            depth == self.stack().len(),
    {
        self.protected.len()
    }

    /// Whether the handle refers to an object of this host.
    pub fn knows(&self, handle: &Handle) -> (known: bool)
        ensures
            known == self.has(*handle),
    {
        handle.raw() < self.objects.len()
    }
}

/// Whether every entry of a list refers to an object below `limit`.
fn refers_below(value: &Value, limit: usize) -> (below: bool)
    ensures
        below == entries_below(value@, limit as int),
{
    match value {
        Value::List(entries) => {
            let mut j: usize = 0;
            while j < entries.len()
                invariant
                    j <= entries@.len(),
                    value@ == ValueView::List(entries_view(entries@)),
                    forall|k: int| 0 <= k < j ==> entries@[k].1 < limit,
                decreases entries@.len() - j,
            {
                if entries[j].1 >= limit {
                    proof {
                        let es = entries_view(entries@);
                        assert(es[j as int].1 == entries@[j as int].1);
                        assert(value@ matches ValueView::List(x) && x == es);
                        assert(!entries_below(value@, limit as int));
                    }
                    return false;
                }
                j += 1;
            }
            assert forall|k: int| 0 <= k < entries_view(entries@).len() implies (
            #[trigger] entries_view(entries@)[k]).1 < limit by {
                assert(entries@[k].1 < limit);
            }
            true
        },
        _ => true,
    }
}

impl Host {
    /// A table that is in order stays so when an object is added whose
    /// entries, if it is a list, refer to objects that are already there.
    proof fn lemma_grown(&self, value: ValueView)
        requires
            self.wf(),
            entries_below(value, self.objects().len() as int),
        ensures
            forall|i: int|
                0 <= i < self.objects().push(value).len() ==> entries_below(
                    #[trigger] self.objects().push(value)[i],
                    i,
                ),
    {
        assert forall|i: int| 0 <= i < self.objects().push(value).len() implies entries_below(
            #[trigger] self.objects().push(value)[i],
            i,
        ) by {
            if i < self.objects().len() {
                assert(self.objects().push(value)[i] == self.objects()[i]);
            }
        }
    }

    /// Enters an object that the host itself made, such as the argument of
    /// a call, and gives its reference. Nothing protects it on the native
    /// side. A list that names an object which is not there is refused as
    /// an internal error, and nothing is entered.
    pub fn allocate(&mut self, value: Value) -> (result: Result<usize, Error>)
        requires
            old(self).wf(),
        ensures
            final(self).wf(),
            final(self).stack() == old(self).stack(),
            match result {
                Ok(raw) => {
                    &&& entries_below(value@, old(self).objects().len() as int)
                    &&& raw == old(self).objects().len()
                    &&& final(self).objects() == old(self).objects().push(value@)
                },
                Err(e) => {
                    &&& !entries_below(value@, old(self).objects().len() as int)
                    &&& e.is_standard(ErrorKind::Internal)
                    &&& final(self).objects() == old(self).objects()
                },
            },
    {
        let raw: usize = self.objects.len();
        if !refers_below(&value, raw) {
            return Err(Error::new(ErrorKind::Internal));
        }
        self.objects.push(value);
        assert(self.objects() =~= old(self).objects().push(value@));
        proof {
            old(self).lemma_grown(value@);
            assert forall|k: int| 0 <= k < self.stack().len() implies (#[trigger] self.stack()[k])
                < self.objects().len() by {
                assert(self.stack()[k] == old(self).stack()[k]);
            }
        }
        Ok(raw)
    }

    /// A borrowed handle to the object with the given reference, as the host
    /// hands it over for the time of a call; none if there is no such object.
    /// The protection stack is not touched.
    pub fn borrow(&self, raw: usize) -> (handle: Option<Handle>)
        ensures
            match handle {
                Some(h) => raw < self.objects().len() && h.raw() == raw && h.mode()
                    == Ownership::Borrowed,
                None => raw >= self.objects().len(),
            },
    {
        if raw < self.objects.len() {
            Some(Handle::new(raw, Ownership::Borrowed))
        } else {
            None
        }
    }

    /// Makes the host object for a native value and protects it.
    ///
    /// On success the object is new, holds what `encoded` says, and is the
    /// most recent entry of the protection stack, which the owned handle
    /// stands for. A value that has no encoding leaves the host as it was.
    pub fn to_handle(&mut self, native: &Native) -> (result: Result<Handle, Error>)
        requires
            old(self).wf(),
        ensures
            final(self).wf(),
            match encoded(native@) {
                Ok(value) => {
                    &&& result matches Ok(h)
                    &&& h.raw() == old(self).objects().len()
                    &&& h.mode() == Ownership::Owned
                    &&& final(self).objects() == old(self).objects().push(value)
                    &&& final(self).stack() == old(self).stack().push(h.raw())
                    &&& final(self).stack() == entered(old(self).stack(), h)
                },
                Err(kind) => {
                    &&& result matches Err(e)
                    &&& e.is_standard(kind)
                    &&& final(self).objects() == old(self).objects()
                    &&& final(self).stack() == old(self).stack()
                },
            },
    {
        match encode(native) {
            Ok(value) => {
                let raw: usize = self.objects.len();
                self.objects.push(value);
                self.protected.push(raw);
                assert(self.objects() =~= old(self).objects().push(value@));
                proof {
                    old(self).lemma_grown(value@);
                    assert forall|k: int| 0 <= k < self.stack().len() implies (
                    #[trigger] self.stack()[k]) < self.objects().len() by {
                        if k < old(self).stack().len() {
                            assert(self.stack()[k] == old(self).stack()[k]);
                        }
                    }
                }
                Ok(Handle::new(raw, Ownership::Owned))
            },
            Err(e) => Err(e),
        }
    }

    /// The object of a handle, to read its elements in place; none if the
    /// handle refers to no object of this host.
    pub fn value(&self, handle: &Handle) -> (value: Option<&Value>)
        ensures
            match value {
                Some(v) => self.has(*handle) && v@ == self.object(*handle),
                None => !self.has(*handle),
            },
    {
        self.look(handle.raw())
    }

    /// The object at a reference, if there is one.
    fn look(&self, raw: usize) -> (value: Option<&Value>)
        ensures
            match value {
                Some(v) => raw < self.objects().len() && v@ == self.objects()[raw as int],
                None => raw >= self.objects().len(),
            },
    {
        if raw < self.objects.len() {
            Some(&self.objects[raw])
        } else {
            None
        }
    }

    /// Reads the object of a handle as a native value of the requested kind.
    /// The handle stays as it was.
    pub fn from_handle(&self, kind: NativeKind, handle: &Handle) -> (result: Result<Native, Error>)
        ensures
            native_outcome(result) == decoded(kind, self.object(*handle)),
            result matches Err(e) ==> e.is_standard(e.kind),
    {
        match self.look(handle.raw()) {
            Some(value) => decode(kind, value),
            None => decode(kind, &Value::Null),
        }
    }

    /// The type tag of the object.
    pub fn type_tag(&self, handle: &Handle) -> (kind: Kind)
        ensures
            kind == self.object(*handle).kind(),
    {
        match self.look(handle.raw()) {
            Some(value) => value.kind(),
            None => Kind::Null,
        }
    }

    /// The number of elements of the object.
    pub fn length(&self, handle: &Handle) -> (len: usize)
        ensures
            len == self.object(*handle).len(),
    {
        match self.look(handle.raw()) {
            Some(value) => value.len(),
            None => 0,
        }
    }

    /// Whether element `i` of the object exists and is missing.
    pub fn is_na_at(&self, handle: &Handle, i: usize) -> (missing: bool)
        ensures
            missing == self.object(*handle).is_na_at(i as int),
    {
        match self.look(handle.raw()) {
            Some(value) => value.is_na_at(i),
            None => false,
        }
    }

    /// Whether two handles stand for the same value: they refer to the same
    /// object, or to objects that hold the same. Vectors hold the same when
    /// their elements are the same, one by one; lists, when their elements
    /// stand for the same values under the same names.
    pub fn same(&self, a: &Handle, b: &Handle) -> (same: bool)
        requires
            self.wf(),
        ensures
            same == alike(self.objects(), a.raw() as int, b.raw() as int),
    {
        self.same_at(a.raw(), b.raw())
    }

    /// Whether the objects at two references hold the same.
    fn same_at(&self, a: usize, b: usize) -> (same: bool)
        requires
            self.wf(),
        ensures
            same == alike(self.objects(), a as int, b as int),
        decreases a + b,
    {
        if a == b {
            return true;
        }
        match (self.look(a), self.look(b)) {
            (Some(Value::List(xs)), Some(Value::List(ys))) => {
                let ghost ex = entries_view(xs@);
                let ghost ey = entries_view(ys@);
                assert(self.objects()[a as int] == ValueView::List(ex));
                assert(self.objects()[b as int] == ValueView::List(ey));
                assert(entries_below(self.objects()[a as int], a as int));
                assert(entries_below(self.objects()[b as int], b as int));
                assert(alike(self.objects(), a as int, b as int) == lists_alike(
                    self.objects(),
                    ex,
                    ey,
                    a as int,
                    b as int,
                ));
                if xs.len() != ys.len() {
                    return false;
                }
                let mut i: usize = 0;
                while i < xs.len()
                    invariant
                        self.wf(),
                        alike(self.objects(), a as int, b as int) == lists_alike(
                            self.objects(),
                            ex,
                            ey,
                            a as int,
                            b as int,
                        ),
                        xs@.len() == ys@.len(),
                        ex == entries_view(xs@),
                        ey == entries_view(ys@),
                        refer_below(ex, a as int),
                        refer_below(ey, b as int),
                        i <= xs@.len(),
                        forall|j: int|
                            0 <= j < i ==> (#[trigger] ex[j]).0 == ey[j].0 && alike(
                                self.objects(),
                                ex[j].1 as int,
                                ey[j].1 as int,
                            ),
                    decreases xs@.len() - i,
                {
                    assert(ex[i as int].1 == xs@[i as int].1 && ex[i as int].0 == xs@[i as int].0@);
                    assert(ey[i as int].1 == ys@[i as int].1 && ey[i as int].0 == ys@[i as int].0@);
                    if !(xs[i].0 == ys[i].0) {
                        assert(ex[i as int].0 != ey[i as int].0);
                        return false;
                    }
                    if !self.same_at(xs[i].1, ys[i].1) {
                        assert(!alike(self.objects(), ex[i as int].1 as int, ey[i as int].1 as int));
                        return false;
                    }
                    i += 1;
                }
                true
            },
            (Some(x), Some(y)) => x.same_as(y),
            (Some(x), None) => x.same_as(&Value::Null),
            (None, Some(y)) => y.same_as(&Value::Null),
            (None, None) => true,
        }
    }

    /// Ends a handle.
    ///
    /// A borrowed handle ends without a trace. An owned handle takes its
    /// entry off the protection stack, and that entry must be the most
    /// recent one: where it is not, the stack is left as it is and the
    /// misuse is reported as an internal error.
    pub fn release(&mut self, handle: Handle) -> (result: Result<(), Error>)
        requires
            old(self).wf(),
        ensures
            final(self).wf(),
            final(self).objects() == old(self).objects(),
            match dropped(old(self).stack(), handle) {
                Some(stack) => result is Ok && final(self).stack() == stack,
                None => {
                    &&& result matches Err(e)
                    &&& e.is_standard(ErrorKind::Internal)
                    &&& final(self).stack() == old(self).stack()
                },
            },
    {
        match handle.mode() {
            Ownership::Borrowed => Ok(()),
            Ownership::Owned => {
                let depth: usize = self.protected.len();
                if depth > 0 && self.protected[depth - 1] == handle.raw() {
                    self.protected.pop();
                    assert(self.stack() =~= old(self).stack().drop_last());
                    assert(self.objects() =~= old(self).objects());
                    Ok(())
                } else {
                    Err(Error::new(ErrorKind::Internal))
                }
            },
        }
    }
}

impl Host {
    /// Reads element `i` of the object at the requested kind. A caller that
    /// counts `i` up from zero until nothing is returned has walked the
    /// vector once; it can do so again, and the handle stays as it was.
    pub fn element(&self, kind: NativeKind, handle: &Handle, i: usize) -> (item: Option<
        Result<Native, Error>,
    >)
        ensures
            item_outcome(item) == element_decoded(kind, self.object(*handle), i as int),
            item matches Some(Err(e)) ==> e.is_standard(e.kind),
    {
        match self.look(handle.raw()) {
            Some(value) => match value.element(i) {
                Some(e) => Some(decode(kind, &e)),
                None => None,
            },
            None => None,
        }
    }

    /// Makes a list of the objects of the handles, under the names given,
    /// and protects it. The list holds the objects in the order given, and
    /// names that repeat stay where they are. The handles are only read. A
    /// handle that refers to no object of this host is an internal error,
    /// and the host stays as it was.
    pub fn list(&mut self, entries: &[(String, Handle)]) -> (result: Result<Handle, Error>)
        requires
            old(self).wf(),
        ensures
            final(self).wf(),
            match result {
                Ok(handle) => {
                    &&& old(self).has_all(entries@)
                    &&& handle.raw() == old(self).objects().len()
                    &&& handle.mode() == Ownership::Owned
                    &&& final(self).objects() == old(self).objects().push(list_of(entries@))
                    &&& final(self).stack() == old(self).stack().push(handle.raw())
                    &&& final(self).stack() == entered(old(self).stack(), handle)
                },
                Err(e) => {
                    &&& !old(self).has_all(entries@)
                    &&& e.is_standard(ErrorKind::Internal)
                    &&& final(self).objects() == old(self).objects()
                    &&& final(self).stack() == old(self).stack()
                },
            },
    {
        let mut cells: Vec<(String, usize)> = Vec::new();
        let mut i: usize = 0;
        while i < entries.len()
            invariant
                self.objects() == old(self).objects(),
                self.stack() == old(self).stack(),
                self.wf(),
                i <= entries@.len(),
                cells@.len() == i,
                forall|j: int| 0 <= j < i ==> self.has((#[trigger] entries@[j]).1),
                forall|j: int|
                    0 <= j < i ==> (#[trigger] cells@[j]).0@ == entries@[j].0@ && cells@[j].1
                        == entries@[j].1.raw(),
            decreases entries@.len() - i,
        {
            if entries[i].1.raw() >= self.objects.len() {
                assert(!self.has(entries@[i as int].1));
                return Err(Error::new(ErrorKind::Internal));
            }
            cells.push((entries[i].0.clone(), entries[i].1.raw()));
            i += 1;
        }
        let value = Value::List(cells);
        assert(value@ == list_of(entries@)) by {
            assert(entries_view(cells@) =~= Seq::new(
                entries@.len(),
                |i: int| (entries@[i].0@, entries@[i].1.raw()),
            ));
        }
        let raw: usize = self.objects.len();
        self.objects.push(value);
        self.protected.push(raw);
        assert(self.objects() =~= old(self).objects().push(value@));
        proof {
            let es = Seq::new(entries@.len(), |i: int| (entries@[i].0@, entries@[i].1.raw()));
            assert forall|j: int| 0 <= j < es.len() implies (#[trigger] es[j]).1 < raw by {
                assert(old(self).has(entries@[j].1));
            }
            old(self).lemma_grown(value@);
            assert forall|k: int| 0 <= k < self.stack().len() implies (#[trigger] self.stack()[k])
                < self.objects().len() by {
                if k < old(self).stack().len() {
                    assert(self.stack()[k] == old(self).stack()[k]);
                }
            }
        }
        Ok(Handle::new(raw, Ownership::Owned))
    }

    /// The names and the elements of a list, in order, each element as a
    /// borrowed handle: the list keeps its elements alive. Any other object
    /// is a type mismatch.
    pub fn entries(&self, handle: &Handle) -> (result: Result<Vec<(String, Handle)>, Error>)
        requires
            self.wf(),
        ensures
            match result {
                Ok(entries) => {
                    &&& self.object(*handle) is List
                    &&& list_of(entries@) == self.object(*handle)
                    &&& self.lends(entries@)
                },
                Err(e) => !(self.object(*handle) is List) && e.is_standard(ErrorKind::TypeMismatch),
            },
    {
        match self.look(handle.raw()) {
            Some(Value::List(cells)) => {
                let ghost es = entries_view(cells@);
                assert(self.objects()[handle.raw() as int] == ValueView::List(es));
                assert(entries_below(self.objects()[handle.raw() as int], handle.raw() as int));
                assert forall|j: int| 0 <= j < cells@.len() implies (#[trigger] cells@[j]).1
                    < self.objects().len() by {
                    assert(es[j].1 == cells@[j].1);
                }
                let mut entries: Vec<(String, Handle)> = Vec::new();
                let mut i: usize = 0;
                while i < cells.len()
                    invariant
                        i <= cells@.len(),
                        entries@.len() == i,
                        forall|j: int|
                            0 <= j < i ==> {
                                &&& (#[trigger] entries@[j]).0@ == cells@[j].0@
                                &&& entries@[j].1.raw() == cells@[j].1
                                &&& entries@[j].1.mode() == Ownership::Borrowed
                            },
                    decreases cells@.len() - i,
                {
                    entries.push(
                        (cells[i].0.clone(), Handle::new(cells[i].1, Ownership::Borrowed)),
                    );
                    i += 1;
                }
                proof {
                    assert(Seq::new(
                        entries@.len(),
                        |i: int| (entries@[i].0@, entries@[i].1.raw()),
                    ) =~= entries_view(cells@));
                    assert forall|i: int| 0 <= i < entries@.len() implies {
                        &&& (#[trigger] entries@[i]).1.mode() == Ownership::Borrowed
                        &&& self.has(entries@[i].1)
                    } by {
                        assert(cells@[i].1 < self.objects().len());
                    }
                }
                Ok(entries)
            },
            _ => Err(Error::new(ErrorKind::TypeMismatch)),
        }
    }

    /// Ends handles, the last one first, as the end of a scope does.
    ///
    /// All of them end or none does: if one of the owned handles would not
    /// find its entry on top of the protection stack when its turn comes,
    /// the stack is left as it is and the misuse is reported as an internal
    /// error.
    pub fn release_all(&mut self, handles: Vec<Handle>) -> (result: Result<(), Error>)
        requires
            old(self).wf(),
        ensures
            final(self).wf(),
            final(self).objects() == old(self).objects(),
            match dropped_all(old(self).stack(), handles@) {
                Some(stack) => result is Ok && final(self).stack() == stack,
                None => {
                    &&& result matches Err(e)
                    &&& e.is_standard(ErrorKind::Internal)
                    &&& final(self).stack() == old(self).stack()
                },
            },
    {
        let mut top: usize = self.protected.len();
        let mut i: usize = handles.len();
        assert(old(self).stack().take(top as int) =~= old(self).stack());
        assert(handles@.take(i as int) =~= handles@);
        while i > 0
            invariant
                self.wf(),
                i <= handles@.len(),
                top <= self.protected@.len(),
                self.protected@ == old(self).stack(),
                self.objects() == old(self).objects(),
                dropped_all(old(self).stack(), handles@) == dropped_all(
                    old(self).stack().take(top as int),
                    handles@.take(i as int),
                ),
            decreases i,
        {
            let ghost here = old(self).stack().take(top as int);
            let ghost upto = handles@.take(i as int);
            assert(upto.last() == handles@[i - 1]);
            assert(upto.drop_last() =~= handles@.take(i - 1));
            i -= 1;
            match handles[i].mode() {
                Ownership::Borrowed => {},
                Ownership::Owned => {
                    if top > 0 && self.protected[top - 1] == handles[i].raw() {
                        assert(here.last() == old(self).stack()[top - 1]);
                        assert(here.drop_last() =~= old(self).stack().take(top - 1));
                        top -= 1;
                    } else {
                        assert(dropped(here, upto.last()) is None);
                        return Err(Error::new(ErrorKind::Internal));
                    }
                },
            }
        }
        assert(handles@.take(0).len() == 0);
        self.protected.truncate(top);
        assert(self.stack() =~= old(self).stack().take(top as int));
        assert(self.objects() =~= old(self).objects());
        Ok(())
    }

    /// Makes the host objects for a sequence of native values and protects
    /// them, all or none.
    ///
    /// If every value has an encoding, there is one new object and one new
    /// entry of the protection stack for each, in order. If one has none,
    /// the handles made before it are ended again before the error of the
    /// first such value is returned, so the protection stack is as it was;
    /// the objects made for them stay in the table, unprotected.
    pub fn to_handles(&mut self, natives: &[Native]) -> (result: Result<Vec<Handle>, Error>)
        requires
            old(self).wf(),
        ensures
            final(self).wf(),
            final(self).objects() == old(self).objects() + encodings(
                natives@,
                first_refused(natives@),
            ),
            match result {
                Ok(handles) => {
                    &&& first_refused(natives@) == natives@.len()
                    &&& handles@.len() == natives@.len()
                    &&& made_in_order(handles@, old(self).objects().len() as int)
                    &&& final(self).stack() == old(self).stack() + raws_of(handles@)
                },
                Err(e) => {
                    &&& first_refused(natives@) < natives@.len()
                    &&& encoded(natives@[first_refused(natives@)]@) == Err::<ValueView, ErrorKind>(
                        e.kind,
                    )
                    &&& e.is_standard(e.kind)
                    &&& final(self).stack() == old(self).stack()
                },
            },
    {
        let mut made: Vec<Handle> = Vec::new();
        let mut i: usize = 0;
        assert(self.objects() =~= old(self).objects() + encodings(natives@, 0));
        assert(natives@.take(0) =~= Seq::<Native>::empty());
        while i < natives.len()
            invariant
                self.wf(),
                i <= natives@.len(),
                made@.len() == i,
                first_refused(natives@.take(i as int)) == i,
                made_in_order(made@, old(self).objects().len() as int),
                self.objects() == old(self).objects() + encodings(natives@, i as int),
                self.stack() == entered_all(old(self).stack(), made@),
            decreases natives@.len() - i,
        {
            let ghost before = natives@.take(i as int);
            let ghost upto = natives@.take(i + 1);
            assert(upto.drop_last() =~= before);
            assert(upto.last() == natives@[i as int]);
            let ghost objects_here = self.objects();
            match self.to_handle(&natives[i]) {
                Ok(h) => {
                    let ghost made_before = made@;
                    made.push(h);
                    assert(made@.drop_last() =~= made_before);
                    assert(made@.last() == h);
                    assert(self.objects() =~= old(self).objects() + encodings(natives@, i + 1));
                },
                Err(e) => {
                    proof {
                        lemma_reverse_drops_restore(old(self).stack(), made@);
                        lemma_first_refused_found(natives@, i as int);
                    }
                    let undone = self.release_all(made);
                    return Err(e);
                },
            }
            i += 1;
        }
        proof {
            assert(natives@.take(i as int) =~= natives@);
            lemma_entered_owned(old(self).stack(), made@);
        }
        Ok(made)
    }
}

/// If the values before index `k` all have an encoding and the value at `k`
/// has none, then `k` is the first that is refused.
proof fn lemma_first_refused_found(natives: Seq<Native>, k: int)
    requires
        0 <= k < natives.len(),
        first_refused(natives.take(k)) == k,
        encoded(natives[k]@) is Err,
    ensures
        first_refused(natives) == k,
    decreases natives.len() - k,
{
    let upto = natives.take(k + 1);
    assert(upto.drop_last() =~= natives.take(k));
    assert(upto.last() == natives[k]);
    assert(first_refused(upto) == k);
    lemma_first_refused_stays(natives, k, k + 1);
}

/// Once a value is refused, later values do not change which one is first.
proof fn lemma_first_refused_stays(natives: Seq<Native>, k: int, n: int)
    requires
        0 <= k < n <= natives.len(),
        first_refused(natives.take(n)) == k,
    ensures
        first_refused(natives) == k,
    decreases natives.len() - n,
{
    if n == natives.len() {
        assert(natives.take(n) =~= natives);
    } else {
        let upto = natives.take(n + 1);
        assert(upto.drop_last() =~= natives.take(n));
        lemma_first_refused_stays(natives, k, n + 1);
    }
}

impl Host {
    /// Takes off every entry that the protection stack has above the given
    /// depth, as the host does when a call ends. A stack that is not deeper
    /// than that stays as it is.
    pub fn unwind(&mut self, depth: usize)
        requires
            old(self).wf(),
        ensures
            final(self).wf(),
            final(self).objects() == old(self).objects(),
            final(self).stack() == if depth <= old(self).stack().len() {
                old(self).stack().take(depth as int)
            } else {
                old(self).stack()
            },
    {
        self.protected.truncate(depth);
        proof {
            assert(self.objects() =~= old(self).objects());
            if depth <= old(self).stack().len() {
                assert(self.stack() =~= old(self).stack().take(depth as int));
            }
        }
    }
}

impl Host {
    /// Takes in what an evaluation by the host came to. A value becomes a
    /// new object, protected by the owned handle that is returned. A
    /// condition that the evaluator raised becomes an error that carries the
    /// evaluator's message, and a list that names an object which is not
    /// there an internal error; neither changes the host.
    pub fn evaluated(&mut self, outcome: Result<Value, String>) -> (result: Result<Handle, Error>)
        requires
            old(self).wf(),
        ensures
            final(self).wf(),
            match outcome {
                Ok(value) => if entries_below(value@, old(self).objects().len() as int) {
                    &&& result matches Ok(h)
                    &&& h.raw() == old(self).objects().len()
                    &&& h.mode() == Ownership::Owned
                    &&& final(self).objects() == old(self).objects().push(value@)
                    &&& final(self).stack() == old(self).stack().push(h.raw())
                    &&& final(self).stack() == entered(old(self).stack(), h)
                } else {
                    &&& result matches Err(e)
                    &&& e.is_standard(ErrorKind::Internal)
                    &&& final(self).objects() == old(self).objects()
                    &&& final(self).stack() == old(self).stack()
                },
                Err(message) => {
                    &&& result matches Err(e)
                    &&& e.kind == ErrorKind::HostSignaled
                    &&& e.message@ == message@
                    &&& final(self).objects() == old(self).objects()
                    &&& final(self).stack() == old(self).stack()
                },
            },
    {
        match outcome {
            Ok(value) => match self.allocate(value) {
                Ok(raw) => {
                    self.protected.push(raw);
                    proof {
                        assert forall|k: int| 0 <= k < self.stack().len() implies (
                        #[trigger] self.stack()[k]) < self.objects().len() by {
                            if k < old(self).stack().len() {
                                assert(self.stack()[k] == old(self).stack()[k]);
                            }
                        }
                    }
                    Ok(Handle::new(raw, Ownership::Owned))
                },
                Err(e) => Err(e),
            },
            Err(message) => Err(Error::host_signaled(message)),
        }
    }

    /// Writes a native value over element `i` of the vector of an owned
    /// handle, in place. The value must encode to one element of the
    /// vector's own kind. On any error the host is as it was.
    pub fn overwrite(&mut self, handle: &Handle, i: usize, native: &Native) -> (result: Result<
        (),
        Error,
    >)
        requires
            old(self).wf(),
        ensures
            final(self).wf(),
            final(self).stack() == old(self).stack(),
            match overwritten(old(self).object(*handle), handle.mode(), i as int, native@) {
                Ok(written) => {
                    &&& result is Ok
                    &&& old(self).has(*handle)
                    &&& final(self).objects() == old(self).objects().update(
                        handle.raw() as int,
                        written,
                    )
                },
                Err(kind) => {
                    &&& result matches Err(e)
                    &&& e.is_standard(kind)
                    &&& final(self).objects() == old(self).objects()
                },
            },
    {
        match handle.mode() {
            Ownership::Borrowed => Err(Error::new(ErrorKind::Internal)),
            Ownership::Owned => match encode(native) {
                Err(e) => Err(e),
                Ok(element) => {
                    if handle.raw() >= self.objects.len() {
                        return Err(Error::new(ErrorKind::TypeMismatch));
                    }
                    let ghost before = self.objects@[handle.raw() as int]@;
                    let done = self.objects[handle.raw()].put(i, &element);
                    proof {
                        match before.put(i as int, element@) {
                            Ok(written) => {
                                assert(self.objects() =~= old(self).objects().update(
                                    handle.raw() as int,
                                    written,
                                ));
                                assert(!(written is List));
                                assert forall|k: int| 0 <= k < self.objects().len() implies entries_below(
                                    #[trigger] self.objects()[k],
                                    k,
                                ) by {
                                    if k != handle.raw() {
                                        assert(self.objects()[k] == old(self).objects()[k]);
                                    }
                                }
                            },
                            Err(_) => {
                                assert(self.objects() =~= old(self).objects());
                            },
                        }
                        assert(self.stack() == old(self).stack());
                        assert(self.objects().len() == old(self).objects().len());
                        assert forall|k: int| 0 <= k < self.stack().len() implies (
                        #[trigger] self.stack()[k]) < self.objects().len() by {
                            assert(old(self).stack()[k] < old(self).objects().len());
                        }
                    }
                    done
                },
            },
        }
    }
}

} // verus!
