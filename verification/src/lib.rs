//! A verified core for exposing native functions to the R interpreter.
//!
//! The interpreter keeps every value in one dynamically typed, garbage
//! collected representation. This crate holds the rules of the boundary:
//! how native values are encoded into host objects and decoded again, how
//! handles keep host objects protected from collection, how a call from the
//! host is marshalled in and out, and how the table of callable routines
//! that is handed to the host at load time is laid out.
//!
//! Nothing here touches the interpreter itself. Host objects are plain
//! values, references are indices into a table of them, and the protection
//! stack is a sequence of references; what holds of these is proved, and the
//! code that talks to a running interpreter carries the values across.

pub mod binary64;
pub mod bridge;
pub mod error;
pub mod handle;
pub mod host;
pub mod laws;
pub mod marshal;
pub mod native;
pub mod registry;
pub mod value;

pub use bridge::{enter, leave, Argument, Entry, Frame, Param, Reply, Returned};
pub use error::{Error, ErrorKind};
pub use handle::{Handle, Ownership};
pub use host::Host;
pub use marshal::{decode, encode};
pub use native::{IntKind, Integer, Native, NativeKind};
pub use registry::{register_call_methods, CallMethod, CallMethodDef};
pub use value::{Kind, Logical, Value, NA_INTEGER};
