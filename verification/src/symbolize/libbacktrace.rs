//! Symbols as a C symbolizer that works through callbacks reports them:
//! one callback delivers source positions, another the bare symbol, and
//! the second is asked only where the first fails.
use crate::types::BytesOrWideString;
use vstd::prelude::*;
use vstd::slice::slice_subrange;

verus! {

/// What the symbolizer reported for an address.
#[derive(Clone, Debug, PartialEq, Eq)]
pub enum Symbol {
    /// The bare symbol: the address asked for and the name of the
    /// symbol, where one is known.
    Syminfo { pc: usize, symname: Option<Vec<u8>> },
    /// A source position: the address asked for, the file, the line and
    /// the function.
    Pcinfo { pc: usize, filename: Vec<u8>, lineno: i32, function: Vec<u8> },
}

/// Mathematical value of a `Symbol`.
pub enum SymbolView {
    Syminfo { pc: usize, symname: Option<Seq<u8>> },
    Pcinfo { pc: usize, filename: Seq<u8>, lineno: i32, function: Seq<u8> },
}

impl View for Symbol {
    type V = SymbolView;

    open spec fn view(&self) -> SymbolView {
        match self {
            Symbol::Syminfo { pc, symname } => SymbolView::Syminfo { pc: *pc, symname: symname.deep_view() },
            Symbol::Pcinfo { pc, filename, lineno, function } => SymbolView::Pcinfo {
                pc: *pc,
                filename: filename@,
                lineno: *lineno,
                function: function@,
            },
        }
    }
}

impl SymbolView {
    /// The name of the symbol.
    pub open spec fn name(self) -> Option<Seq<u8>> {
        match self {
            SymbolView::Syminfo { symname, .. } => symname,
            SymbolView::Pcinfo { function, .. } => Some(function),
        }
    }

    /// The address asked for; an address of zero counts as none.
    pub open spec fn addr(self) -> Option<usize> {
        let pc = match self {
            SymbolView::Syminfo { pc, .. } => pc,
            SymbolView::Pcinfo { pc, .. } => pc,
        };
        if pc == 0 {
            None
        } else {
            Some(pc)
        }
    }

    /// The source file.
    pub open spec fn filename(self) -> Option<Seq<u8>> {
        match self {
            SymbolView::Syminfo { .. } => None,
            SymbolView::Pcinfo { filename, .. } => Some(filename),
        }
    }

    /// The source line.
    pub open spec fn lineno(self) -> Option<u32> {
        match self {
            SymbolView::Syminfo { .. } => None,
            SymbolView::Pcinfo { lineno, .. } => Some(lineno as u32),
        }
    }
}

impl Symbol {
    /// The name of the symbol.
    pub fn name(&self) -> (r: Option<&Vec<u8>>)
        ensures
            r.deep_view() == self@.name(),
    {
        match self {
            Symbol::Syminfo { symname, .. } => symname.as_ref(),
            Symbol::Pcinfo { function, .. } => {
                assert(function.deep_view() =~= function@);
                Some(function)
            },
        }
    }

    /// The address asked for; an address of zero counts as none.
    pub fn addr(&self) -> (r: Option<usize>)
        ensures
            r == self@.addr(),
    {
        let pc = match self {
            Symbol::Syminfo { pc, .. } => *pc,
            Symbol::Pcinfo { pc, .. } => *pc,
        };
        if pc == 0 {
            None
        } else {
            Some(pc)
        }
    }

    /// The source file, as bytes.
    pub fn filename_raw(&self) -> (r: Option<BytesOrWideString<'_>>)
        ensures
            match r {
                Some(BytesOrWideString::Bytes(b)) => self@.filename() == Some(b@),
                Some(BytesOrWideString::Wide(_)) => false,
                None => self@.filename() is None,
            },
    {
        match self {
            Symbol::Syminfo { .. } => None,
            Symbol::Pcinfo { filename, .. } => Some(BytesOrWideString::Bytes(filename.as_slice())),
        }
    }

    /// The source file.
    pub fn filename(&self) -> (r: Option<&Vec<u8>>)
        ensures
            r.deep_view() == self@.filename(),
    {
        match self {
            Symbol::Syminfo { .. } => None,
            Symbol::Pcinfo { filename, .. } => {
                assert(filename.deep_view() =~= filename@);
                Some(filename)
            },
        }
    }

    /// The source line.
    pub fn lineno(&self) -> (r: Option<u32>)
        ensures
            r == self@.lineno(),
    {
        match self {
            Symbol::Syminfo { .. } => None,
            Symbol::Pcinfo { lineno, .. } => Some(#[verifier::truncate] (*lineno as u32)),
        }
    }
}

/// Answers the symbolizer's report of a bare symbol: the symbol to hand
/// on.
pub fn syminfo_cb(pc: usize, symname: Option<Vec<u8>>) -> (r: Symbol)
    ensures
        r@ == (SymbolView::Syminfo { pc, symname: symname.deep_view() }),
{
    Symbol::Syminfo { pc, symname }
}

/// Answers the symbolizer's report of a source position: the symbol to
/// hand on and the status to return to the symbolizer. A report without
/// file or without function hands nothing on and returns a status other
/// than zero, which makes the symbolizer give up on source positions.
pub fn pcinfo_cb(pc: usize, filename: Option<Vec<u8>>, lineno: i32, function: Option<Vec<u8>>) -> (r: (
    Option<Symbol>,
    i32,
))
    ensures
        match (filename, function) {
            (Some(file), Some(name)) => r.1 == 0 && (r.0 matches Some(symbol) && symbol@ == (SymbolView::Pcinfo {
                pc,
                filename: file@,
                lineno,
                function: name@,
            })),
            _ => r.1 == -1 && r.0 is None,
        },
{
    match (filename, function) {
        (Some(filename), Some(function)) => (Some(Symbol::Pcinfo { pc, filename, lineno, function }), 0),
        _ => (None, -1),
    }
}

/// Whether the bare symbol is to be asked for, given the status with
/// which the search for source positions ended.
pub fn wants_syminfo(pcinfo_status: i32) -> (r: bool)
    ensures
        r == (pcinfo_status != 0),
{
    pcinfo_status != 0
}

/// The path of the running executable as the system wrote it into
/// `buffer`, terminating zero included. `status` and `len` are what the
/// system's query returned. There is no path where the query failed,
/// where the path filled the buffer and may have been cut, or where no
/// zero follows it.
pub open spec fn queried_name(buffer: Seq<u8>, status: i32, len: u32) -> Option<Seq<u8>> {
    if status == 0 || len >= buffer.len() || buffer[len as int] != 0 {
        None
    } else {
        Some(buffer.take(len + 1))
    }
}

/// Checks the outcome of the system's query for the path of the running
/// executable.
pub fn query_full_name(buffer: &[u8], status: i32, len: u32) -> (r: Option<&[u8]>)
    ensures
        match r {
            Some(name) => queried_name(buffer@, status, len) == Some(name@),
            None => queried_name(buffer@, status, len) is None,
        },
{
    if status == 0 || len as usize >= buffer.len() || buffer[len as usize] != 0 {
        None
    } else {
        let name = slice_subrange(buffer, 0, len as usize + 1);
        proof {
            assert(name@ =~= buffer@.take(len + 1));
        }
        Some(name)
    }
}

/// The path to hand to the symbolizer: the path queried first, provided
/// that the file could be opened under it and that the path queried
/// again afterwards is the same. This guards against the file being
/// exchanged between the query and the opening.
#[verifier::loop_isolation(false)]
pub fn load_filename<'a>(first: Option<&'a [u8]>, opened: bool, second: Option<&[u8]>) -> (r: Option<&'a [u8]>)
    ensures
        match r {
            Some(name) => opened && first == Some(name) && (second matches Some(again) && again@ == name@),
            None => !opened || first is None || second is None || first.unwrap()@ != second.unwrap()@,
        },
{
    let name = first?;
    if !opened {
        return None;
    }
    let again = second?;
    if name.len() != again.len() {
        return None;
    }
    let mut i: usize = 0;
    while i < name.len()
        invariant
            i <= name.len(),
            forall|k: int| 0 <= k < i ==> name@[k] == again@[k],
        decreases name.len() - i,
    {
        if name[i] != again[i] {
            return None;
        }
        i += 1;
    }
    assert(name@ =~= again@);
    Some(name)
}

} // verus!
