//! Owned, self-contained backtraces: the frames of a captured call stack
//! together with what resolving them found.
use crate::backtrace::Frame;
use crate::symbolize::gimli::{Symbol, SymbolView};
use vstd::prelude::*;
use vstd::slice::slice_to_vec;

verus! {

/// Representation of an owned and self-contained backtrace.
///
/// A backtrace is captured at one point of a program and inspected at
/// another; it holds no reference to the stack it was taken from.
#[derive(Debug)]
pub enum Backtrace {
    /// A resolved backtrace.
    Resolved {
        /// The resolved backtrace frames.
        frames: Vec<BacktraceFrame>,
    },
    /// An unresolved backtrace.
    Unresolved {
        /// The unresolved frame captures to resolve in the future.
        unresolved_frames: Vec<Frame>,
    },
}

/// Captured version of a frame in a backtrace.
#[derive(Debug)]
pub struct BacktraceFrame {
    ip: usize,
    symbol_address: usize,
    symbols: Vec<BacktraceSymbol>,
}

/// Captured version of a symbol in a backtrace.
#[derive(Debug)]
pub struct BacktraceSymbol {
    name: Option<Vec<u8>>,
    addr: Option<usize>,
    filename: Option<Vec<u8>>,
    lineno: Option<u32>,
}

/// Mathematical value of a `BacktraceSymbol`.
pub struct BacktraceSymbolView {
    pub name: Option<Seq<u8>>,
    pub addr: Option<usize>,
    pub filename: Option<Seq<u8>>,
    pub lineno: Option<u32>,
}

/// Mathematical value of a `BacktraceFrame`.
pub struct BacktraceFrameView {
    pub ip: usize,
    pub symbol_address: usize,
    pub symbols: Seq<BacktraceSymbolView>,
}

/// Mathematical value of a `Backtrace`.
pub enum BacktraceView {
    Resolved { frames: Seq<BacktraceFrameView> },
    Unresolved { unresolved_frames: Seq<Frame> },
}

impl View for BacktraceSymbol {
    type V = BacktraceSymbolView;

    closed spec fn view(&self) -> BacktraceSymbolView {
        BacktraceSymbolView {
            name: self.name.deep_view(),
            addr: self.addr,
            filename: self.filename.deep_view(),
            lineno: self.lineno,
        }
    }
}

impl View for BacktraceFrame {
    type V = BacktraceFrameView;

    closed spec fn view(&self) -> BacktraceFrameView {
        BacktraceFrameView {
            ip: self.ip,
            symbol_address: self.symbol_address,
            symbols: self.symbols@.map_values(|s: BacktraceSymbol| s@),
        }
    }
}

impl View for Backtrace {
    type V = BacktraceView;

    open spec fn view(&self) -> BacktraceView {
        match self {
            Backtrace::Resolved { frames } => BacktraceView::Resolved {
                frames: frames@.map_values(|f: BacktraceFrame| f@),
            },
            Backtrace::Unresolved { unresolved_frames } => BacktraceView::Unresolved {
                unresolved_frames: unresolved_frames@,
            },
        }
    }
}

/// What is kept of a resolved symbol.
pub open spec fn captured_symbol(s: SymbolView) -> BacktraceSymbolView {
    BacktraceSymbolView { name: s.name(), addr: s.addr(), filename: s.filename(), lineno: s.lineno() }
}

/// The symbols found for the `i`-th frame; none where the list of
/// findings is shorter.
pub open spec fn symbols_at(symbols: Seq<Vec<Symbol>>, i: int) -> Seq<Symbol> {
    if 0 <= i < symbols.len() {
        symbols[i]@
    } else {
        Seq::empty()
    }
}

/// What is kept of a frame and the symbols found for it.
pub open spec fn captured_frame(frame: Frame, symbols: Seq<Symbol>) -> BacktraceFrameView {
    BacktraceFrameView {
        ip: frame.ip(),
        symbol_address: frame.symbol_address(),
        symbols: symbols.map_values(|s: Symbol| captured_symbol(s@)),
    }
}

/// The resolved frames made of the captured frames and the symbols found
/// for each.
pub open spec fn captured_frames(frames: Seq<Frame>, symbols: Seq<Vec<Symbol>>) -> Seq<BacktraceFrameView> {
    Seq::new(frames.len(), |i: int| captured_frame(frames[i], symbols_at(symbols, i)))
}

fn copy_bytes(bytes: Option<&Vec<u8>>) -> (r: Option<Vec<u8>>)
    ensures
        r.deep_view() == bytes.deep_view(),
{
    match bytes {
        Some(b) => {
            let c = slice_to_vec(b.as_slice());
            assert(c.deep_view() =~= b.deep_view());
            Some(c)
        },
        None => None,
    }
}

impl BacktraceSymbol {
    /// Keeps the name, address, file and line of a resolved symbol.
    pub fn capture(symbol: &Symbol) -> (r: BacktraceSymbol)
        ensures
            r@ == captured_symbol(symbol@),
    {
        BacktraceSymbol {
            name: copy_bytes(symbol.name()),
            addr: symbol.addr(),
            filename: copy_bytes(symbol.filename()),
            lineno: symbol.lineno(),
        }
    }

    /// A copy of this symbol.
    pub fn duplicate(&self) -> (r: BacktraceSymbol)
        ensures
            r@ == self@,
    {
        BacktraceSymbol {
            name: copy_bytes(self.name.as_ref()),
            addr: self.addr,
            filename: copy_bytes(self.filename.as_ref()),
            lineno: self.lineno,
        }
    }

    /// The raw, still mangled name of the symbol.
    pub fn name(&self) -> (r: Option<&Vec<u8>>)
        ensures
            r.deep_view() == self@.name,
    {
        self.name.as_ref()
    }

    /// The address of the symbol.
    pub fn addr(&self) -> (r: Option<usize>)
        ensures
            r == self@.addr,
    {
        self.addr
    }

    /// The source file of the symbol.
    pub fn filename(&self) -> (r: Option<&Vec<u8>>)
        ensures
            r.deep_view() == self@.filename,
    {
        self.filename.as_ref()
    }

    /// The source line of the symbol.
    pub fn lineno(&self) -> (r: Option<u32>)
        ensures
            r == self@.lineno,
    {
        self.lineno
    }
}

impl BacktraceFrame {
    /// Keeps the addresses of a frame and the symbols found for it.
    pub fn capture(frame: &Frame, symbols: &Vec<Symbol>) -> (r: BacktraceFrame)
        ensures
            r@ == captured_frame(*frame, symbols@),
    {
        let mut kept: Vec<BacktraceSymbol> = Vec::new();
        let mut i: usize = 0;
        while i < symbols.len()
            invariant
                i <= symbols.len(),
                kept.len() == i,
                forall|k: int| 0 <= k < i ==> (#[trigger] kept@[k])@ == captured_symbol(symbols@[k]@),
            decreases symbols.len() - i,
        {
            kept.push(BacktraceSymbol::capture(&symbols[i]));
            i += 1;
        }
        proof {
            assert(kept@.map_values(|s: BacktraceSymbol| s@) =~= symbols@.map_values(
                |s: Symbol| captured_symbol(s@),
            ));
        }
        BacktraceFrame { ip: frame.ip(), symbol_address: frame.symbol_address(), symbols: kept }
    }

    /// A copy of this frame.
    pub fn duplicate(&self) -> (r: BacktraceFrame)
        ensures
            r@ == self@,
    {
        let mut kept: Vec<BacktraceSymbol> = Vec::new();
        let mut i: usize = 0;
        while i < self.symbols.len()
            invariant
                i <= self.symbols.len(),
                kept.len() == i,
                forall|k: int| 0 <= k < i ==> (#[trigger] kept@[k])@ == self.symbols@[k]@,
            decreases self.symbols.len() - i,
        {
            kept.push(self.symbols[i].duplicate());
            i += 1;
        }
        proof {
            assert(kept@.map_values(|s: BacktraceSymbol| s@) =~= self@.symbols);
        }
        BacktraceFrame { ip: self.ip, symbol_address: self.symbol_address, symbols: kept }
    }

    /// Same as `Frame::ip`.
    pub fn ip(&self) -> (r: usize)
        ensures
            r == self@.ip,
    {
        self.ip
    }

    /// Same as `Frame::symbol_address`.
    pub fn symbol_address(&self) -> (r: usize)
        ensures
            r == self@.symbol_address,
    {
        self.symbol_address
    }

    /// Returns the list of symbols that this frame corresponds to.
    ///
    /// Normally there is only one symbol per frame, but where functions
    /// were inlined into one frame there are several: the first is the
    /// innermost function, the last the outermost caller.
    pub fn symbols(&self) -> (r: &Vec<BacktraceSymbol>)
        ensures
            r@.map_values(|s: BacktraceSymbol| s@) == self@.symbols,
    {
        &self.symbols
    }
}

impl Backtrace {
    /// Builds a resolved backtrace from the frames of a stack walk and
    /// the symbols that resolving each frame's instruction pointer
    /// found, `symbols[i]` belonging to `frames[i]`.
    pub fn new(frames: &Vec<Frame>, symbols: &Vec<Vec<Symbol>>) -> (r: Backtrace)
        ensures
            r@ == (BacktraceView::Resolved { frames: captured_frames(frames@, symbols@) }),
    {
        let mut kept: Vec<BacktraceFrame> = Vec::new();
        let mut i: usize = 0;
        while i < frames.len()
            invariant
                i <= frames.len(),
                kept.len() == i,
                forall|k: int|
                    0 <= k < i ==> (#[trigger] kept@[k])@ == captured_frame(frames@[k], symbols_at(symbols@, k)),
            decreases frames.len() - i,
        {
            let none: Vec<Symbol> = Vec::new();
            let found = if i < symbols.len() {
                &symbols[i]
            } else {
                &none
            };
            kept.push(BacktraceFrame::capture(&frames[i], found));
            proof {
                assert(found@ =~= symbols_at(symbols@, i as int));
            }
            i += 1;
        }
        proof {
            assert(kept@.map_values(|f: BacktraceFrame| f@) =~= captured_frames(frames@, symbols@));
        }
        Backtrace::Resolved { frames: kept }
    }

    /// Builds a backtrace of the frames of a stack walk that leaves
    /// resolving them for later.
    pub fn new_unresolved(frames: Vec<Frame>) -> (r: Backtrace)
        ensures
            r@ == (BacktraceView::Unresolved { unresolved_frames: frames@ }),
    {
        Backtrace::Unresolved { unresolved_frames: frames }
    }

    /// Returns the frames from when this backtrace was captured,
    /// innermost first. The backtrace must be resolved.
    pub fn frames(&self) -> (r: &Vec<BacktraceFrame>)
        requires
            self@ is Resolved,
        ensures
            self@ == (BacktraceView::Resolved { frames: r@.map_values(|f: BacktraceFrame| f@) }),
    {
        match self {
            Backtrace::Resolved { frames } => frames,
            Backtrace::Unresolved { .. } => {
                proof {
                    assert(false);
                }
                unreached()
            },
        }
    }

    /// The frames of this backtrace that are still to be resolved;
    /// `None` for a resolved backtrace.
    pub fn unresolved_frames(&self) -> (r: Option<&Vec<Frame>>)
        ensures
            match r {
                Some(frames) => self@ == (BacktraceView::Unresolved { unresolved_frames: frames@ }),
                None => self@ is Resolved,
            },
    {
        match self {
            Backtrace::Resolved { .. } => None,
            Backtrace::Unresolved { unresolved_frames } => Some(unresolved_frames),
        }
    }

    /// Gets a completely resolved backtrace from a possibly unresolved
    /// one. A resolved backtrace is copied. For an unresolved one,
    /// `symbols[i]` holds what resolving its `i`-th frame found.
    pub fn resolve(&self, symbols: &Vec<Vec<Symbol>>) -> (r: Backtrace)
        ensures
            r@ == match self@ {
                BacktraceView::Resolved { frames } => BacktraceView::Resolved { frames },
                BacktraceView::Unresolved { unresolved_frames } => BacktraceView::Resolved {
                    frames: captured_frames(unresolved_frames, symbols@),
                },
            },
    {
        match self {
            Backtrace::Resolved { frames } => {
                let mut kept: Vec<BacktraceFrame> = Vec::new();
                let mut i: usize = 0;
                while i < frames.len()
                    invariant
                        i <= frames.len(),
                        kept.len() == i,
                        forall|k: int| 0 <= k < i ==> (#[trigger] kept@[k])@ == frames@[k]@,
                    decreases frames.len() - i,
                {
                    kept.push(frames[i].duplicate());
                    i += 1;
                }
                proof {
                    assert(kept@.map_values(|f: BacktraceFrame| f@) =~= frames@.map_values(
                        |f: BacktraceFrame| f@,
                    ));
                }
                Backtrace::Resolved { frames: kept }
            },
            Backtrace::Unresolved { unresolved_frames } => Backtrace::new(unresolved_frames, symbols),
        }
    }

    /// Turns a list of resolved frames into a backtrace.
    pub fn from_frames(frames: Vec<BacktraceFrame>) -> (r: Backtrace)
        ensures
            r@ == (BacktraceView::Resolved { frames: frames@.map_values(|f: BacktraceFrame| f@) }),
    {
        Backtrace::Resolved { frames }
    }

    /// Turns a backtrace into the list of its resolved frames. For an
    /// unresolved backtrace, `symbols[i]` holds what resolving its `i`-th
    /// frame found.
    pub fn into_frames(self, symbols: &Vec<Vec<Symbol>>) -> (r: Vec<BacktraceFrame>)
        ensures
            r@.map_values(|f: BacktraceFrame| f@) == match self@ {
                BacktraceView::Resolved { frames } => frames,
                BacktraceView::Unresolved { unresolved_frames } => captured_frames(unresolved_frames, symbols@),
            },
    {
        match self {
            Backtrace::Resolved { frames } => frames,
            Backtrace::Unresolved { unresolved_frames } => {
                match Backtrace::new(&unresolved_frames, symbols) {
                    Backtrace::Resolved { frames } => frames,
                    Backtrace::Unresolved { .. } => {
                        proof {
                            assert(false);
                        }
                        unreached()
                    },
                }
            },
        }
    }
}

} // verus!
