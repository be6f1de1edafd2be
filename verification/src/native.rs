//! The native values that cross the boundary, and their kinds.

use vstd::prelude::*;

verus! {

/// The native integer types.
#[derive(Clone, Copy, Debug, PartialEq, Eq, Structural, Hash)]
pub enum IntKind {
    I8,
    U8,
    I16,
    U16,
    I32,
    U32,
    I64,
    U64,
}

/// A native integer together with its type.
#[derive(Clone, Copy, Debug, PartialEq, Eq, Structural, Hash)]
pub enum Integer {
    I8(i8),
    U8(u8),
    I16(i16),
    U16(u16),
    I32(i32),
    U32(u32),
    I64(i64),
    U64(u64),
}

impl IntKind {
    /// The smallest value of the type.
    pub open spec fn min(self) -> int {
        match self {
            IntKind::I8 => -0x80,
            IntKind::I16 => -0x8000,
            IntKind::I32 => -0x8000_0000,
            IntKind::I64 => -0x8000_0000_0000_0000,
            _ => 0,
        }
    }

    /// The largest value of the type.
    pub open spec fn max(self) -> int {
        match self {
            IntKind::I8 => 0x7f,
            IntKind::U8 => 0xff,
            IntKind::I16 => 0x7fff,
            IntKind::U16 => 0xffff,
            IntKind::I32 => 0x7fff_ffff,
            IntKind::U32 => 0xffff_ffff,
            IntKind::I64 => 0x7fff_ffff_ffff_ffff,
            IntKind::U64 => 0xffff_ffff_ffff_ffff,
        }
    }

    /// Whether the type can hold `n`.
    pub open spec fn holds(self, n: int) -> bool {
        self.min() <= n <= self.max()
    }

    /// The value of this type that equals `n`, for an `n` that the type holds.
    pub open spec fn make(self, n: int) -> Integer {
        match self {
            IntKind::I8 => Integer::I8(n as i8),
            IntKind::U8 => Integer::U8(n as u8),
            IntKind::I16 => Integer::I16(n as i16),
            IntKind::U16 => Integer::U16(n as u16),
            IntKind::I32 => Integer::I32(n as i32),
            IntKind::U32 => Integer::U32(n as u32),
            IntKind::I64 => Integer::I64(n as i64),
            IntKind::U64 => Integer::U64(n as u64),
        }
    }

    /// The value of this type that equals `wide`, if the type holds it.
    pub fn narrow(self, wide: i128) -> (narrowed: Option<Integer>)
        ensures
            narrowed == if self.holds(wide as int) {
                Some(self.make(wide as int))
            } else {
                None::<Integer>
            },
    {
        match self {
            IntKind::I8 => if -0x80 <= wide && wide <= 0x7f {
                Some(Integer::I8(wide as i8))
            } else {
                None
            },
            IntKind::U8 => if 0 <= wide && wide <= 0xff {
                Some(Integer::U8(wide as u8))
            } else {
                None
            },
            IntKind::I16 => if -0x8000 <= wide && wide <= 0x7fff {
                Some(Integer::I16(wide as i16))
            } else {
                None
            },
            IntKind::U16 => if 0 <= wide && wide <= 0xffff {
                Some(Integer::U16(wide as u16))
            } else {
                None
            },
            IntKind::I32 => if -0x8000_0000 <= wide && wide <= 0x7fff_ffff {
                Some(Integer::I32(wide as i32))
            } else {
                None
            },
            IntKind::U32 => if 0 <= wide && wide <= 0xffff_ffff {
                Some(Integer::U32(wide as u32))
            } else {
                None
            },
            IntKind::I64 => if -0x8000_0000_0000_0000 <= wide && wide <= 0x7fff_ffff_ffff_ffff {
                Some(Integer::I64(wide as i64))
            } else {
                None
            },
            IntKind::U64 => if 0 <= wide && wide <= 0xffff_ffff_ffff_ffff {
                Some(Integer::U64(wide as u64))
            } else {
                None
            },
        }
    }
}

impl Integer {
    /// The type of the integer.
    pub open spec fn spec_kind(self) -> IntKind {
        match self {
            Integer::I8(_) => IntKind::I8,
            Integer::U8(_) => IntKind::U8,
            Integer::I16(_) => IntKind::I16,
            Integer::U16(_) => IntKind::U16,
            Integer::I32(_) => IntKind::I32,
            Integer::U32(_) => IntKind::U32,
            Integer::I64(_) => IntKind::I64,
            Integer::U64(_) => IntKind::U64,
        }
    }

    /// The number that the integer is.
    pub open spec fn value(self) -> int {
        match self {
            Integer::I8(x) => x as int,
            Integer::U8(x) => x as int,
            Integer::I16(x) => x as int,
            Integer::U16(x) => x as int,
            Integer::I32(x) => x as int,
            Integer::U32(x) => x as int,
            Integer::I64(x) => x as int,
            Integer::U64(x) => x as int,
        }
    }

    /// The type of the integer.
    #[verifier::when_used_as_spec(spec_kind)]
    pub fn kind(self) -> (kind: IntKind)
        ensures
            kind == self.spec_kind(),
    {
        match self {
            Integer::I8(_) => IntKind::I8,
            Integer::U8(_) => IntKind::U8,
            Integer::I16(_) => IntKind::I16,
            Integer::U16(_) => IntKind::U16,
            Integer::I32(_) => IntKind::I32,
            Integer::U32(_) => IntKind::U32,
            Integer::I64(_) => IntKind::I64,
            Integer::U64(_) => IntKind::U64,
        }
    }

    /// The number that the integer is, in a type wide enough for all of them.
    pub fn widen(self) -> (wide: i128)
        ensures
            wide == self.value(),
    {
        match self {
            Integer::I8(x) => x as i128,
            Integer::U8(x) => x as i128,
            Integer::I16(x) => x as i128,
            Integer::U16(x) => x as i128,
            Integer::I32(x) => x as i128,
            Integer::U32(x) => x as i128,
            Integer::I64(x) => x as i128,
            Integer::U64(x) => x as i128,
        }
    }
}

/// The kinds of native value that can be asked of a host object.
#[derive(Clone, Copy, Debug, PartialEq, Eq, Structural, Hash)]
pub enum NativeKind {
    /// No value.
    Unit,
    /// One integer of the given type.
    Int(IntKind),
    /// One boolean.
    Bool,
    /// One real, as its 64-bit pattern.
    Real,
    /// One text.
    Text,
    /// One 32-bit integer that may be missing.
    OptInt,
    /// One boolean that may be missing.
    OptBool,
    /// One text that may be missing.
    OptText,
    /// A sequence of 32-bit integers.
    Ints,
    /// A sequence of reals, as their 64-bit patterns.
    Reals,
    /// A sequence of booleans.
    Bools,
    /// A sequence of texts.
    Texts,
    /// The address of a native object that the host carries without reading it.
    Opaque,
}

/// A native value.
#[derive(Clone, Debug, PartialEq, Eq)]
pub enum Native {
    Unit,
    Int(Integer),
    Bool(bool),
    Real(u64),
    Text(String),
    OptInt(Option<i32>),
    OptBool(Option<bool>),
    OptText(Option<String>),
    Ints(Vec<i32>),
    Reals(Vec<u64>),
    Bools(Vec<bool>),
    Texts(Vec<String>),
    Opaque(usize),
}

/// The mathematical model of a `Native`.
pub enum NativeView {
    Unit,
    Int(Integer),
    Bool(bool),
    Real(u64),
    Text(Seq<char>),
    OptInt(Option<i32>),
    OptBool(Option<bool>),
    OptText(Option<Seq<char>>),
    Ints(Seq<i32>),
    Reals(Seq<u64>),
    Bools(Seq<bool>),
    Texts(Seq<Seq<char>>),
    Opaque(usize),
}

/// The characters of each text of a sequence.
pub open spec fn strings_view(texts: Seq<String>) -> Seq<Seq<char>> {
    Seq::new(texts.len(), |i: int| texts[i]@)
}

impl View for Native {
    type V = NativeView;

    open spec fn view(&self) -> NativeView {
        match self {
            Native::Unit => NativeView::Unit,
            Native::Int(x) => NativeView::Int(*x),
            Native::Bool(b) => NativeView::Bool(*b),
            Native::Real(bits) => NativeView::Real(*bits),
            Native::Text(s) => NativeView::Text(s@),
            Native::OptInt(x) => NativeView::OptInt(*x),
            Native::OptBool(b) => NativeView::OptBool(*b),
            Native::OptText(s) => NativeView::OptText(
                match s {
                    Some(s) => Some(s@),
                    None => None,
                },
            ),
            Native::Ints(v) => NativeView::Ints(v@),
            Native::Reals(v) => NativeView::Reals(v@),
            Native::Bools(v) => NativeView::Bools(v@),
            Native::Texts(v) => NativeView::Texts(strings_view(v@)),
            Native::Opaque(address) => NativeView::Opaque(*address),
        }
    }
}

impl NativeView {
    /// The kind of the value.
    pub open spec fn kind(self) -> NativeKind {
        match self {
            NativeView::Unit => NativeKind::Unit,
            NativeView::Int(x) => NativeKind::Int(x.spec_kind()),
            NativeView::Bool(_) => NativeKind::Bool,
            NativeView::Real(_) => NativeKind::Real,
            NativeView::Text(_) => NativeKind::Text,
            NativeView::OptInt(_) => NativeKind::OptInt,
            NativeView::OptBool(_) => NativeKind::OptBool,
            NativeView::OptText(_) => NativeKind::OptText,
            NativeView::Ints(_) => NativeKind::Ints,
            NativeView::Reals(_) => NativeKind::Reals,
            NativeView::Bools(_) => NativeKind::Bools,
            NativeView::Texts(_) => NativeKind::Texts,
            NativeView::Opaque(_) => NativeKind::Opaque,
        }
    }
}

impl Native {
    /// The kind of the value.
    pub fn kind(&self) -> (kind: NativeKind)
        ensures
            kind == self@.kind(),
    {
        match self {
            Native::Unit => NativeKind::Unit,
            Native::Int(x) => NativeKind::Int(x.kind()),
            Native::Bool(_) => NativeKind::Bool,
            Native::Real(_) => NativeKind::Real,
            Native::Text(_) => NativeKind::Text,
            Native::OptInt(_) => NativeKind::OptInt,
            Native::OptBool(_) => NativeKind::OptBool,
            Native::OptText(_) => NativeKind::OptText,
            Native::Ints(_) => NativeKind::Ints,
            Native::Reals(_) => NativeKind::Reals,
            Native::Bools(_) => NativeKind::Bools,
            Native::Texts(_) => NativeKind::Texts,
            Native::Opaque(_) => NativeKind::Opaque,
        }
    }
}

} // verus!
