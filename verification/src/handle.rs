//! Handles, and what they do to the protection stack.
//!
//! The host may reclaim any object that nothing protects. Native code
//! protects the objects it creates by entering them on the host's protection
//! stack, and takes them off again when it is done with them, the most
//! recent one first. A `Handle` is the native side's reference to one
//! object: an owned handle stands for one entry of the stack, a borrowed
//! handle for none, because somebody further up the call stack keeps the
//! object alive.
//!
//! The stack itself is a sequence of references, the most recent last. This
//! module says what making and dropping a handle does to it, and proves that
//! handles dropped in the reverse of the order in which they were made leave
//! it as they found it.

use vstd::prelude::*;

verus! {

/// Who keeps the object of a handle alive.
#[derive(Clone, Copy, Debug, PartialEq, Eq, Structural, Hash)]
pub enum Ownership {
    /// The handle itself: it stands for an entry of the protection stack.
    Owned,
    /// Somebody else, for at least as long as the handle is in use.
    Borrowed,
}

/// The native side's reference to one host object.
///
/// A handle cannot be copied, and its ownership never changes. Giving an
/// owned handle back to `Host::release` is the only way to end it, so no
/// entry of the protection stack is taken off twice.
#[derive(Debug)]
pub struct Handle {
    raw: usize,
    mode: Ownership,
}

impl Handle {
    /// A handle to the object with the given reference.
    pub(crate) fn new(raw: usize, mode: Ownership) -> (handle: Handle)
        ensures
            handle.raw() == raw,
            handle.mode() == mode,
    {
        Handle { raw, mode }
    }

    /// The reference of the object.
    pub closed spec fn spec_raw(&self) -> usize {
        self.raw
    }

    /// Who keeps the object alive.
    pub closed spec fn spec_mode(&self) -> Ownership {
        self.mode
    }

    /// The reference of the object, as the host knows it.
    #[verifier::when_used_as_spec(spec_raw)]
    pub fn raw(&self) -> (raw: usize)
        ensures
            raw == self.spec_raw(),
    {
        self.raw
    }

    /// Who keeps the object alive.
    #[verifier::when_used_as_spec(spec_mode)]
    pub fn mode(&self) -> (mode: Ownership)
        ensures
            mode == self.spec_mode(),
    {
        self.mode
    }

    /// Whether the handle stands for an entry of the protection stack.
    pub fn is_owned(&self) -> (owned: bool)
        ensures
            owned == (self.mode() == Ownership::Owned),
    {
        match self.mode {
            Ownership::Owned => true,
            Ownership::Borrowed => false,
        }
    }

    /// A borrowed handle to the same object. It is good for as long as this
    /// handle keeps the object alive.
    pub fn alias(&self) -> (other: Handle)
        ensures
            other.raw() == self.raw(),
            other.mode() == Ownership::Borrowed,
    {
        Handle { raw: self.raw, mode: Ownership::Borrowed }
    }
}

/// The protection stack after its most recent entry was taken off, where
/// that entry is `raw`; none where it is not, or the stack is empty.
pub open spec fn released(stack: Seq<usize>, raw: usize) -> Option<Seq<usize>> {
    if stack.len() > 0 && stack.last() == raw {
        Some(stack.drop_last())
    } else {
        None
    }
}

/// The protection stack after a handle was dropped: an owned handle takes
/// its entry off, a borrowed handle leaves the stack alone.
pub open spec fn dropped(stack: Seq<usize>, handle: Handle) -> Option<Seq<usize>> {
    match handle.mode() {
        Ownership::Owned => released(stack, handle.raw()),
        Ownership::Borrowed => Some(stack),
    }
}

/// The protection stack after the handles were dropped, the last one first;
/// none if one of them could not be.
pub open spec fn dropped_all(stack: Seq<usize>, handles: Seq<Handle>) -> Option<Seq<usize>>
    decreases handles.len(),
{
    if handles.len() == 0 {
        Some(stack)
    } else {
        match dropped(stack, handles.last()) {
            Some(rest) => dropped_all(rest, handles.drop_last()),
            None => None,
        }
    }
}

/// The references of the handles, in order.
pub open spec fn raws_of(handles: Seq<Handle>) -> Seq<usize> {
    Seq::new(handles.len(), |i: int| handles[i].raw())
}

/// The protection stack after a handle was made: an owned handle enters
/// its object, a borrowed handle nothing.
pub open spec fn entered(stack: Seq<usize>, handle: Handle) -> Seq<usize> {
    match handle.mode() {
        Ownership::Owned => stack.push(handle.raw()),
        Ownership::Borrowed => stack,
    }
}

/// The protection stack after the handles were made, the first one first.
pub open spec fn entered_all(stack: Seq<usize>, handles: Seq<Handle>) -> Seq<usize>
    decreases handles.len(),
{
    if handles.len() == 0 {
        stack
    } else {
        entered(entered_all(stack, handles.drop_last()), handles.last())
    }
}

/// Handles that are dropped in the reverse of the order in which they were
/// made leave the protection stack as it was before the first of them was
/// made, whatever it held then and however many they are. In particular its
/// depth is what it was.
pub proof fn lemma_reverse_drops_restore(stack: Seq<usize>, handles: Seq<Handle>)
    ensures
        dropped_all(entered_all(stack, handles), handles) == Some(stack),
    decreases handles.len(),
{
    if handles.len() > 0 {
        let before = entered_all(stack, handles.drop_last());
        if handles.last().mode() == Ownership::Owned {
            assert(before.push(handles.last().raw()).drop_last() =~= before);
        }
        lemma_reverse_drops_restore(stack, handles.drop_last());
    }
}

/// Owned handles enter their references in the order in which they are made.
pub proof fn lemma_entered_owned(stack: Seq<usize>, handles: Seq<Handle>)
    requires
        forall|i: int| 0 <= i < handles.len() ==> (#[trigger] handles[i]).mode() == Ownership::Owned,
    ensures
        entered_all(stack, handles) == stack + raws_of(handles),
    decreases handles.len(),
{
    if handles.len() == 0 {
        assert(stack + raws_of(handles) =~= stack);
    } else {
        lemma_entered_owned(stack, handles.drop_last());
        assert(handles.last() == handles[handles.len() - 1]);
        assert((stack + raws_of(handles.drop_last())).push(handles.last().raw()) =~= stack
            + raws_of(handles));
    }
}

/// Whether the handles are owned and refer to consecutive objects, the
/// first of them to the object at `first`.
pub open spec fn made_in_order(handles: Seq<Handle>, first: int) -> bool {
    forall|i: int|
        0 <= i < handles.len() ==> {
            &&& (#[trigger] handles[i]).raw() == first + i
            &&& handles[i].mode() == Ownership::Owned
        }
}

} // verus!
