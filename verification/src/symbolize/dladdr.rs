//! Symbols reported by the dynamic loader's own address lookup, the last
//! resort when an image's debug information and symbol table say nothing.
use vstd::prelude::*;

verus! {

/// What the dynamic loader knows about an address.
#[derive(Clone, Debug, PartialEq, Eq)]
pub struct Symbol {
    name: Option<Vec<u8>>,
    addr: usize,
    module: Option<Vec<u8>>,
}

/// Mathematical value of a loader symbol.
pub struct SymbolView {
    pub name: Option<Seq<u8>>,
    pub addr: usize,
    pub module: Option<Seq<u8>>,
}

impl View for Symbol {
    type V = SymbolView;

    closed spec fn view(&self) -> SymbolView {
        SymbolView { name: self.name.deep_view(), addr: self.addr, module: self.module.deep_view() }
    }
}

impl Symbol {
    /// Builds a loader symbol from the name of the nearest exported symbol
    /// (absent where the loader knows none), that symbol's address, and
    /// the path of the image containing the address.
    pub fn new(name: Option<Vec<u8>>, addr: usize, module: Option<Vec<u8>>) -> (r: Symbol)
        ensures
            r@ == (SymbolView { name: name.deep_view(), addr, module: module.deep_view() }),
    {
        Symbol { name, addr, module }
    }

    /// The raw name of the symbol.
    pub fn name(&self) -> (r: Option<&Vec<u8>>)
        ensures
            r.deep_view() == self@.name,
    {
        self.name.as_ref()
    }

    /// The address at which the symbol starts.
    pub fn addr(&self) -> (r: Option<usize>)
        ensures
            r == Some(self@.addr),
    {
        Some(self.addr)
    }

    /// The path of the image that contains the address.
    pub fn module(&self) -> (r: Option<&Vec<u8>>)
        ensures
            r.deep_view() == self@.module,
    {
        self.module.as_ref()
    }

    /// The loader records no source file.
    pub fn filename(&self) -> (r: Option<&Vec<u8>>)
        ensures
            r is None,
    {
        None
    }

    /// The loader records no line number.
    pub fn lineno(&self) -> (r: Option<u32>)
        ensures
            r is None,
    {
        None
    }
}

/// The symbols that the loader tier contributes for one address: the
/// loader's answer, if it had one.
pub open spec fn resolved(found: Option<SymbolView>) -> Seq<SymbolView> {
    match found {
        Some(s) => seq![s],
        None => Seq::empty(),
    }
}

/// Turns the outcome of the loader's lookup into the list of symbols
/// reported for the address: one symbol on a hit, none on a miss.
pub fn resolve(found: Option<Symbol>) -> (r: Vec<Symbol>)
    ensures
        r@.map_values(|s: Symbol| s@) == resolved(
            match found {
                Some(s) => Some(s@),
                None => None,
            },
        ),
{
    let mut out: Vec<Symbol> = Vec::new();
    match found {
        Some(s) => {
            out.push(s);
            assert(out@.map_values(|s: Symbol| s@) =~= seq![s@]);
        },
        None => {
            assert(out@.map_values(|s: Symbol| s@) =~= Seq::<SymbolView>::empty());
        },
    }
    out
}

} // verus!
