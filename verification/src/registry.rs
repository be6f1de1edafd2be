//! The table of callable routines that is handed to the host at load time.

use vstd::prelude::*;
use crate::error::{Error, ErrorKind};

verus! {

/// One native function offered to the host: the symbol it is called by, the
/// address of its entry point, and the number of arguments it declares
/// (`-1` for a variable number).
#[derive(Clone, Debug, PartialEq, Eq)]
pub struct CallMethod {
    pub call_symbol: Vec<u8>,
    pub func_ptr: usize,
    pub num_args: i32,
}

/// One entry of the table in the host's layout. `name` holds the symbol
/// followed by a terminating zero byte; an absent `name` or `fun` is a null
/// pointer.
#[derive(Clone, Debug, PartialEq, Eq)]
pub struct CallMethodDef {
    pub name: Option<Vec<u8>>,
    pub fun: Option<usize>,
    pub num_args: i32,
}

/// The mathematical model of a `CallMethodDef`.
pub struct DefView {
    pub name: Option<Seq<u8>>,
    pub fun: Option<usize>,
    pub num_args: i32,
}

impl View for CallMethodDef {
    type V = DefView;

    open spec fn view(&self) -> DefView {
        DefView {
            name: match self.name {
                Some(bytes) => Some(bytes@),
                None => None,
            },
            fun: self.fun,
            num_args: self.num_args,
        }
    }
}

impl CallMethod {
    /// A method can be written into the table when its symbol can be
    /// terminated by a zero byte without being cut short, and its entry
    /// point is not the null address.
    pub open spec fn registrable(self) -> bool {
        &&& forall|i: int| 0 <= i < self.call_symbol@.len() ==> self.call_symbol@[i] != 0u8
        &&& self.func_ptr != 0
    }

    /// The table entry that describes this method.
    pub open spec fn entry(self) -> DefView {
        DefView {
            name: Some(self.call_symbol@.push(0u8)),
            fun: Some(self.func_ptr),
            num_args: self.num_args,
        }
    }
}

/// Whether every method can be written into the table.
pub open spec fn all_registrable(methods: Seq<CallMethod>) -> bool {
    forall|i: int| 0 <= i < methods.len() ==> (#[trigger] methods[i]).registrable()
}

/// The entry that ends every table: all pointers null, arity zero.
pub open spec fn sentinel() -> DefView {
    DefView { name: None, fun: None, num_args: 0 }
}

/// The table for `methods`: one entry per method, in the order given and
/// with repeated symbols kept, then the sentinel.
pub open spec fn call_table(methods: Seq<CallMethod>) -> Seq<DefView> {
    Seq::new(
        methods.len() + 1,
        |i: int| if i < methods.len() { methods[i].entry() } else { sentinel() },
    )
}

/// The table has one entry more than there are methods, whatever their
/// number and their symbols: entry `i` describes method `i`, so methods that
/// share a symbol have an entry each, and the last entry is the sentinel.
pub proof fn lemma_call_table(methods: Seq<CallMethod>)
    ensures
        call_table(methods).len() == methods.len() + 1,
        call_table(methods).last() == sentinel(),
        forall|i: int|
            0 <= i < methods.len() ==> #[trigger] call_table(methods)[i] == methods[i].entry(),
{
}

/// The entries of a table as plain values.
pub open spec fn table_view(table: Seq<CallMethodDef>) -> Seq<DefView> {
    Seq::new(table.len(), |i: int| table[i]@)
}

/// Whether the symbol holds no zero byte.
fn symbol_is_clean(symbol: &Vec<u8>) -> (clean: bool)
    ensures
        clean == (forall|i: int| 0 <= i < symbol@.len() ==> symbol@[i] != 0u8),
{
    let mut i: usize = 0;
    while i < symbol.len()
        invariant
            i <= symbol@.len(),
            forall|j: int| 0 <= j < i ==> symbol@[j] != 0u8,
        decreases symbol@.len() - i,
    {
        if symbol[i] == 0 {
            return false;
        }
        i += 1;
    }
    true
}

/// The symbol followed by its terminating zero byte.
fn terminated(symbol: &Vec<u8>) -> (bytes: Vec<u8>)
    ensures
        bytes@ == symbol@.push(0u8),
{
    let mut bytes: Vec<u8> = Vec::new();
    let mut i: usize = 0;
    while i < symbol.len()
        invariant
            i <= symbol@.len(),
            bytes@ == symbol@.take(i as int),
        decreases symbol@.len() - i,
    {
        bytes.push(symbol[i]);
        i += 1;
    }
    bytes.push(0);
    bytes
}

/// Lays out the table of routines for the host's registration call.
///
/// The table holds one entry per method, in the order given, and ends with
/// the sentinel, so it has one entry more than there are methods. Methods
/// that share a symbol are all kept: which of them the host calls is the
/// host's choice. The table is built whole or not at all: if any method is
/// not registrable, nothing is returned but an internal error.
pub fn register_call_methods(methods: &[CallMethod]) -> (result: Result<Vec<CallMethodDef>, Error>)
    ensures
        match result {
            Ok(table) => {
                &&& all_registrable(methods@)
                &&& table_view(table@) == call_table(methods@)
                &&& table@.len() == methods@.len() + 1
                &&& table@.last()@ == sentinel()
            },
            Err(e) => !all_registrable(methods@) && e.is_standard(ErrorKind::Internal),
        },
{
    let mut table: Vec<CallMethodDef> = Vec::new();
    let mut i: usize = 0;
    while i < methods.len()
        invariant
            i <= methods@.len(),
            table@.len() == i,
            forall|j: int| 0 <= j < i ==> (#[trigger] methods@[j]).registrable(),
            forall|j: int| 0 <= j < i ==> (#[trigger] table@[j])@ == methods@[j].entry(),
        decreases methods@.len() - i,
    {
        let method = &methods[i];
        if method.func_ptr == 0 || !symbol_is_clean(&method.call_symbol) {
            assert(!methods@[i as int].registrable());
            return Err(Error::new(ErrorKind::Internal));
        }
        table.push(
            CallMethodDef {
                name: Some(terminated(&method.call_symbol)),
                fun: Some(method.func_ptr),
                num_args: method.num_args,
            },
        );
        i += 1;
    }
    table.push(CallMethodDef { name: None, fun: None, num_args: 0 });
    assert(table_view(table@) =~= call_table(methods@));
    Ok(table)
}

} // verus!
