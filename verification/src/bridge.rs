//! The call bridge: what happens between the host's call of a registered
//! function and the return to the host.
//!
//! The host calls with one object reference per declared parameter. The
//! bridge borrows each object and reads it as the parameter's kind. If that
//! fails for any parameter the function is not run: the call is refused with
//! the message of the first failure. Otherwise the function runs on native
//! arguments, and what it returns is turned into a host object whose
//! reference goes back to the host, or into a condition that carries the
//! message of its failure. Either way the protection stack is left as deep
//! as the call found it.
//!
//! Running the function is the caller's part. `enter` says whether and on
//! what to run it, and `leave` turns its outcome into the reply.

use vstd::prelude::*;
use crate::error::{Error, ErrorKind};
use crate::handle::{Handle, Ownership};
use crate::host::Host;
use crate::marshal::{decoded, encoded};
use crate::native::{Native, NativeKind, NativeView};
use crate::value::ValueView;

verus! {

/// What a parameter of a native function is declared as.
#[derive(Clone, Copy, Debug, PartialEq, Eq, Structural, Hash)]
pub enum Param {
    /// A native value of the given kind.
    Value(NativeKind),
    /// The host object itself, for functions that look at it through a handle.
    Object,
}

/// An argument as the native function receives it.
#[derive(Debug)]
pub enum Argument {
    Value(Native),
    Object(Handle),
}

/// What a native function hands back on success.
#[derive(Debug)]
pub enum Returned {
    /// A native value, for which a host object is made.
    Value(Native),
    /// A host object that exists already.
    Object(Handle),
}

/// What the host gets back from a call.
#[derive(Clone, Debug, PartialEq, Eq)]
pub enum Reply {
    /// The reference of the object that is the result.
    Object(usize),
    /// A condition to be signaled, with its message.
    Condition(String),
}

/// A call in progress. It remembers how deep the protection stack was when
/// the call came in.
#[derive(Debug)]
pub struct Frame {
    base: usize,
}

/// How a call starts.
#[derive(Debug)]
pub enum Entry {
    /// Run the function on these arguments, then `leave` with the frame.
    Invoke { frame: Frame, arguments: Vec<Argument> },
    /// Do not run the function: signal a condition with this message.
    Refuse { message: String },
}

/// The mathematical model of an `Argument`: a native value, or the
/// reference of the object that the argument is a handle to.
pub enum ArgumentView {
    Value(NativeView),
    Object(usize),
}

impl View for Argument {
    type V = ArgumentView;

    open spec fn view(&self) -> ArgumentView {
        match self {
            Argument::Value(native) => ArgumentView::Value(native@),
            Argument::Object(handle) => ArgumentView::Object(handle.raw()),
        }
    }
}

/// The models of the arguments, in order.
pub open spec fn arguments_view(arguments: Seq<Argument>) -> Seq<ArgumentView> {
    Seq::new(arguments.len(), |i: int| arguments[i]@)
}

/// Whether every argument that is a handle is a borrowed one.
pub open spec fn all_borrowed(arguments: Seq<Argument>) -> bool {
    forall|i: int|
        0 <= i < arguments.len() ==> (#[trigger] arguments[i] matches Argument::Object(handle)
            ==> handle.mode() == Ownership::Borrowed)
}

/// What one parameter receives from the object with the given reference. A
/// reference to no object is an internal error.
pub open spec fn argument_read(objects: Seq<ValueView>, param: Param, raw: usize) -> Result<
    ArgumentView,
    ErrorKind,
> {
    if raw >= objects.len() {
        Err(ErrorKind::Internal)
    } else {
        match param {
            Param::Object => Ok(ArgumentView::Object(raw)),
            Param::Value(kind) => match decoded(kind, objects[raw as int]) {
                Ok(native) => Ok(ArgumentView::Value(native)),
                Err(e) => Err(e),
            },
        }
    }
}

/// What the first `count` parameters receive: the arguments in order, or the
/// error of the first parameter that cannot be read.
pub open spec fn arguments_upto(
    objects: Seq<ValueView>,
    params: Seq<Param>,
    raws: Seq<usize>,
    count: int,
) -> Result<Seq<ArgumentView>, ErrorKind>
    decreases count,
{
    if count <= 0 {
        Ok(Seq::empty())
    } else {
        match arguments_upto(objects, params, raws, count - 1) {
            Err(e) => Err(e),
            Ok(before) => match argument_read(objects, params[count - 1], raws[count - 1]) {
                Ok(argument) => Ok(before.push(argument)),
                Err(e) => Err(e),
            },
        }
    }
}

/// What the parameters of a call receive. A call with more or fewer
/// references than there are parameters is a length mismatch.
pub open spec fn arguments_read(objects: Seq<ValueView>, params: Seq<Param>, raws: Seq<usize>)
    -> Result<Seq<ArgumentView>, ErrorKind> {
    if raws.len() != params.len() {
        Err(ErrorKind::LengthMismatch)
    } else {
        arguments_upto(objects, params, raws, params.len() as int)
    }
}

impl Frame {
    /// The depth of the protection stack when the call came in.
    pub closed spec fn spec_base(&self) -> usize {
        self.base
    }

    /// The depth of the protection stack when the call came in.
    #[verifier::when_used_as_spec(spec_base)]
    pub fn base(&self) -> (base: usize)
        ensures
            base == self.spec_base(),
    {
        self.base
    }
}

/// Reads one object as one parameter.
fn read_argument(host: &Host, param: Param, raw: usize) -> (result: Result<Argument, Error>)
    ensures
        match argument_read(host.objects(), param, raw) {
            Ok(argument) => {
                &&& result matches Ok(a)
                &&& a@ == argument
                &&& a matches Argument::Object(handle) ==> handle.mode() == Ownership::Borrowed
            },
            Err(kind) => result matches Err(e) && e.is_standard(kind),
        },
{
    match host.borrow(raw) {
        None => Err(Error::new(ErrorKind::Internal)),
        Some(handle) => match param {
            Param::Object => Ok(Argument::Object(handle)),
            Param::Value(kind) => match host.from_handle(kind, &handle) {
                Ok(native) => Ok(Argument::Value(native)),
                Err(e) => Err(e),
            },
        },
    }
}

/// Starts a call that the host makes with the given object references.
///
/// The function is to be run exactly when every parameter can be read, and
/// then on the arguments that `arguments_read` gives; the frame holds the
/// depth of the protection stack. Otherwise the call is refused with the
/// message of the first failure. The host is not changed either way.
pub fn enter(host: &Host, params: &[Param], raws: &[usize]) -> (entry: Entry)
    ensures
        match arguments_read(host.objects(), params@, raws@) {
            Ok(arguments) => {
                &&& entry matches Entry::Invoke { frame, arguments: received }
                &&& frame.base() == host.stack().len()
                &&& arguments_view(received@) == arguments
                &&& all_borrowed(received@)
            },
            Err(kind) => entry matches Entry::Refuse { message } && message@ == kind.spec_text(),
        },
{
    if raws.len() != params.len() {
        return Entry::Refuse { message: Error::new(ErrorKind::LengthMismatch).message };
    }
    let mut arguments: Vec<Argument> = Vec::new();
    let mut i: usize = 0;
    assert(arguments_view(arguments@) =~= Seq::<ArgumentView>::empty());
    while i < params.len()
        invariant
            raws@.len() == params@.len(),
            i <= params@.len(),
            arguments@.len() == i,
            arguments_upto(host.objects(), params@, raws@, i as int) == Ok::<
                Seq<ArgumentView>,
                ErrorKind,
            >(arguments_view(arguments@)),
            all_borrowed(arguments@),
        decreases params@.len() - i,
    {
        match read_argument(host, params[i], raws[i]) {
            Ok(argument) => {
                let ghost before = arguments_view(arguments@);
                arguments.push(argument);
                assert(arguments_view(arguments@) =~= before.push(argument@));
            },
            Err(e) => {
                proof {
                    lemma_refused_stays(host.objects(), params@, raws@, i + 1, params@.len() as int);
                }
                return Entry::Refuse { message: e.message };
            },
        }
        i += 1;
    }
    Entry::Invoke { frame: Frame { base: host.depth() }, arguments }
}

/// Once a parameter cannot be read, the parameters after it do not change
/// the error.
proof fn lemma_refused_stays(
    objects: Seq<ValueView>,
    params: Seq<Param>,
    raws: Seq<usize>,
    count: int,
    more: int,
)
    requires
        0 <= count <= more,
        arguments_upto(objects, params, raws, count) is Err,
    ensures
        arguments_upto(objects, params, raws, more) == arguments_upto(objects, params, raws, count),
    decreases more - count,
{
    if count < more {
        lemma_refused_stays(objects, params, raws, count, more - 1);
    }
}

/// What the host gets back for an outcome of the function, where the call's
/// frame is in order: for a failure a condition with the failure's message;
/// for a native value the reference of a new object that holds its encoding,
/// or a condition if it has none; for a handle the reference of its object,
/// or a condition if this host has no such object.
pub open spec fn reply_for(objects: Seq<ValueView>, outcome: Result<Returned, Error>) -> Result<
    usize,
    Seq<char>,
> {
    match outcome {
        Err(e) => Err(e.message@),
        Ok(Returned::Value(native)) => match encoded(native@) {
            Ok(_) => Ok(objects.len() as usize),
            Err(kind) => Err(kind.spec_text()),
        },
        Ok(Returned::Object(handle)) => if handle.raw() < objects.len() {
            Ok(handle.raw())
        } else {
            Err(ErrorKind::Internal.spec_text())
        },
    }
}

/// A reply as plain values.
pub open spec fn reply_view(reply: Reply) -> Result<usize, Seq<char>> {
    match reply {
        Reply::Object(raw) => Ok(raw),
        Reply::Condition(message) => Err(message@),
    }
}

/// The objects after the call: one more than before where the function
/// returned a native value that has an encoding, and else the same.
pub open spec fn objects_after(objects: Seq<ValueView>, outcome: Result<Returned, Error>) -> Seq<
    ValueView,
> {
    match outcome {
        Ok(Returned::Value(native)) => match encoded(native@) {
            Ok(value) => objects.push(value),
            Err(_) => objects,
        },
        _ => objects,
    }
}

/// Ends a call with the outcome of the function and gives the reply for the
/// host.
///
/// Whatever the outcome, the protection stack is cut back to the depth that
/// the frame holds: what the function protected and did not release is
/// released before the host sees the reply, and the object that is returned
/// is not on the stack either, because from here on the host keeps it alive.
/// A stack that is less deep than the frame says was misused: it is left
/// alone, and the reply is the condition of an internal error.
pub fn leave(host: &mut Host, frame: Frame, outcome: Result<Returned, Error>) -> (reply: Reply)
    requires
        old(host).wf(),
    ensures
        final(host).wf(),
        frame.base() <= old(host).stack().len() ==> {
            &&& final(host).stack() == old(host).stack().take(frame.base() as int)
            &&& final(host).objects() == objects_after(old(host).objects(), outcome)
            &&& reply_view(reply) == reply_for(old(host).objects(), outcome)
        },
        frame.base() > old(host).stack().len() ==> {
            &&& final(host).stack() == old(host).stack()
            &&& final(host).objects() == old(host).objects()
            &&& reply_view(reply) == Err::<usize, Seq<char>>(ErrorKind::Internal.spec_text())
        },
{
    if frame.base > host.depth() {
        return Reply::Condition(Error::new(ErrorKind::Internal).message);
    }
    host.unwind(frame.base);
    match outcome {
        Err(e) => Reply::Condition(e.message),
        Ok(Returned::Value(native)) => match host.to_handle(&native) {
            Ok(handle) => {
                let raw: usize = handle.raw();
                let handed_over = host.release(handle);
                assert(old(host).stack().take(frame.base() as int).push(raw).drop_last()
                    =~= old(host).stack().take(frame.base() as int));
                Reply::Object(raw)
            },
            Err(e) => Reply::Condition(e.message),
        },
        Ok(Returned::Object(handle)) => if host.knows(&handle) {
            Reply::Object(handle.raw())
        } else {
            Reply::Condition(Error::new(ErrorKind::Internal).message)
        },
    }
}

} // verus!
