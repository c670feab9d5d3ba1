//! The self-contained symbolizer: the index of loaded libraries, the
//! translation of runtime addresses into addresses stated in their files,
//! and the resolution of an address through debug information, symbol
//! table and dynamic loader in turn.
use self::dwarf::{Location, LocationView};
use super::dladdr;
use super::ResolveWhat;
use crate::types::BytesOrWideString;
use vstd::prelude::*;

pub use self::cache::{
    after_lookup, available, entries_after, frame_symbols, image_symbols, is_position, keys_of,
    loader_view, mapped_symbols, position, resolution, valid_entries, Cache, MAPPINGS_CACHE_SIZE,
};
pub use self::laws::{
    after_lookups, after_resolutions, lemma_after_lookup_valid, lemma_clearing_keeps_results,
    lemma_front_position, lemma_least_recently_used, lemma_resolve_idempotent, lemma_symtab_fallback,
    lemma_total_miss, lemma_translation,
};
pub use self::mapping::{
    bundle_suffix, chosen_bundle, chosen_in, debug_sections, is_debug_bundle, lemma_source_usable, macho_source,
    offered, readable, section_data, section_name, source, symtab_name, usable_image, Format,
    Mapping, Supplied,
};

pub mod cache;
pub mod coff;
pub mod dwarf;
pub mod elf;
pub mod laws;
pub mod macho;
pub mod mapping;
pub mod parse_running_mmaps_unix;
pub mod parse_running_mmaps_unix_default;
pub mod parse_running_mmaps_unix_nto;
pub mod symtab;

verus! {

/// One address range of a loaded library, as the object file states it.
#[derive(Clone, Copy, Debug, PartialEq, Eq, Structural)]
pub struct LibrarySegment {
    /// Number of bytes the segment occupies in memory.
    pub len: usize,
    /// Address of the segment as recorded in the file, before relocation.
    pub stated_virtual_memory_address: usize,
}

/// A loaded executable image.
#[derive(Clone, Debug)]
pub struct Library {
    /// Path of the file the image was loaded from; empty when unknown.
    pub name: Vec<u8>,
    /// The segments of the image, in the order the loader reported them.
    pub segments: Vec<LibrarySegment>,
    /// Runtime address minus stated address, the same for every segment.
    pub bias: isize,
}

/// The stated address that the runtime address `addr` has in a library
/// loaded at `bias`.
pub open spec fn stated_address(bias: isize, addr: usize) -> int {
    addr - bias
}

/// Whether the runtime address `addr` falls inside `seg` of a library
/// loaded at `bias`, and its stated address can be written down.
pub open spec fn segment_contains(seg: LibrarySegment, bias: isize, addr: usize) -> bool {
    let svma = stated_address(bias, addr);
    &&& seg.stated_virtual_memory_address <= svma
    &&& svma < seg.stated_virtual_memory_address + seg.len
    &&& svma <= usize::MAX
}

/// Whether some segment of the library contains `addr`.
pub open spec fn library_contains(segments: Seq<LibrarySegment>, bias: isize, addr: usize) -> bool {
    exists|j: int| 0 <= j < segments.len() && segment_contains(#[trigger] segments[j], bias, addr)
}

impl LibrarySegment {
    /// Tests whether the runtime address `addr` lies in this segment when
    /// the library is loaded at `bias`.
    pub fn contains(&self, bias: isize, addr: usize) -> (r: bool)
        ensures
            r == segment_contains(*self, bias, addr),
    {
        let svma: i128 = addr as i128 - bias as i128;
        let start: i128 = self.stated_virtual_memory_address as i128;
        start <= svma && svma - start < self.len as i128 && svma <= usize::MAX as i128
    }
}

impl Library {
    /// Tests whether any segment of this library contains `addr`.
    pub fn contains(&self, addr: usize) -> (r: bool)
        ensures
            r == library_contains(self.segments@, self.bias, addr),
    {
        let mut j: usize = 0;
        while j < self.segments.len()
            invariant
                j <= self.segments.len(),
                forall|k: int| 0 <= k < j ==> !segment_contains(#[trigger] self.segments@[k], self.bias, addr),
            decreases self.segments.len() - j,
        {
            if self.segments[j].contains(self.bias, addr) {
                return true;
            }
            j += 1;
        }
        false
    }
}

/// Index standing for the current executable where the loaded images
/// cannot be enumerated.
pub const CURRENT_EXECUTABLE: usize = usize::MAX;

/// Whether `i` is the first library of `libs` with a segment containing
/// `addr`.
pub open spec fn is_first_containing(libs: Seq<Library>, addr: usize, i: int) -> bool {
    &&& 0 <= i < libs.len()
    &&& library_contains(libs[i].segments@, libs[i].bias, addr)
    &&& forall|k: int| 0 <= k < i ==> !library_contains(#[trigger] libs[k].segments@, libs[k].bias, addr)
}

/// Translation of a runtime address into a library index and the address
/// stated in that library's file. Without enumeration (`identity`) every
/// address is taken to be its own stated address in the current
/// executable.
pub open spec fn translated(libs: Seq<Library>, identity: bool, addr: usize) -> Option<(usize, usize)> {
    if identity {
        Some((CURRENT_EXECUTABLE, addr))
    } else if exists|i: int| is_first_containing(libs, addr, i) {
        let i = choose|i: int| is_first_containing(libs, addr, i);
        Some((i as usize, stated_address(libs[i].bias, addr) as usize))
    } else {
        None
    }
}

/// What resolving an address found.
#[allow(inconsistent_fields)]
#[derive(Clone, Debug, PartialEq, Eq)]
pub enum Symbol {
    /// Debug information covers the address: one source-level frame, the
    /// innermost function or one inlined around it.
    Frame { addr: usize, location: Option<Location>, name: Option<Vec<u8>> },
    /// No debug information, but the image's symbol table names the
    /// address.
    Symtab { addr: usize, name: Vec<u8> },
    /// Nothing in the image's file; the dynamic loader had an answer.
    Dladdr(dladdr::Symbol),
}

/// Mathematical value of a `Symbol`.
#[allow(inconsistent_fields)]
pub enum SymbolView {
    Frame { addr: usize, location: Option<LocationView>, name: Option<Seq<u8>> },
    Symtab { addr: usize, name: Seq<u8> },
    Dladdr(dladdr::SymbolView),
}

impl View for Symbol {
    type V = SymbolView;

    open spec fn view(&self) -> SymbolView {
        match self {
            Symbol::Frame { addr, location, name } => SymbolView::Frame {
                addr: *addr,
                location: match location {
                    Some(l) => Some(l@),
                    None => None,
                },
                name: name.deep_view(),
            },
            Symbol::Symtab { addr, name } => SymbolView::Symtab { addr: *addr, name: name@ },
            Symbol::Dladdr(s) => SymbolView::Dladdr(s@),
        }
    }
}

/// The values of a list of symbols.
pub open spec fn symbol_views(symbols: Seq<Symbol>) -> Seq<SymbolView> {
    symbols.map_values(|s: Symbol| s@)
}

impl SymbolView {
    /// The raw name of the symbol.
    pub open spec fn name(self) -> Option<Seq<u8>> {
        match self {
            SymbolView::Frame { name, .. } => name,
            SymbolView::Symtab { name, .. } => Some(name),
            SymbolView::Dladdr(s) => s.name,
        }
    }

    /// The address the symbol was found for or starts at.
    pub open spec fn addr(self) -> Option<usize> {
        match self {
            SymbolView::Frame { addr, .. } => Some(addr),
            SymbolView::Symtab { .. } => None,
            SymbolView::Dladdr(s) => Some(s.addr),
        }
    }

    /// The source file of the symbol.
    pub open spec fn filename(self) -> Option<Seq<u8>> {
        match self {
            SymbolView::Frame { location: Some(l), .. } => l.file,
            _ => None,
        }
    }

    /// The source line of the symbol.
    pub open spec fn lineno(self) -> Option<u32> {
        match self {
            SymbolView::Frame { location: Some(l), .. } => l.line,
            _ => None,
        }
    }
}

impl Symbol {
    /// The raw, still mangled name of the symbol.
    pub fn name(&self) -> (r: Option<&Vec<u8>>)
        ensures
            r.deep_view() == self@.name(),
    {
        match self {
            Symbol::Dladdr(s) => s.name(),
            Symbol::Frame { name, .. } => name.as_ref(),
            Symbol::Symtab { name, .. } => {
                assert(name.deep_view() =~= name@);
                Some(name)
            },
        }
    }

    /// The address of the symbol. The symbol table tier reports none.
    pub fn addr(&self) -> (r: Option<usize>)
        ensures
            r == self@.addr(),
    {
        match self {
            Symbol::Dladdr(s) => s.addr(),
            Symbol::Frame { addr, .. } => Some(*addr),
            Symbol::Symtab { .. } => None,
        }
    }

    /// The source file of the symbol as raw bytes.
    pub fn filename_raw(&self) -> (r: Option<BytesOrWideString<'_>>)
        ensures
            match r {
                Some(BytesOrWideString::Bytes(b)) => self@.filename() == Some(b@),
                Some(BytesOrWideString::Wide(_)) => false,
                None => self@.filename() is None,
            },
    {
        match self.filename() {
            Some(file) => {
                assert(file.deep_view() =~= file@);
                Some(BytesOrWideString::Bytes(file.as_slice()))
            },
            None => None,
        }
    }

    /// The source file of the symbol. Only debug information knows one.
    pub fn filename(&self) -> (r: Option<&Vec<u8>>)
        ensures
            r.deep_view() == self@.filename(),
    {
        match self {
            Symbol::Frame { location: Some(l), .. } => l.file.as_ref(),
            _ => None,
        }
    }

    /// The source line of the symbol. Only debug information knows one.
    pub fn lineno(&self) -> (r: Option<u32>)
        ensures
            r == self@.lineno(),
    {
        match self {
            Symbol::Frame { location: Some(l), .. } => l.line,
            _ => None,
        }
    }
}

/// Resolves an address or a frame's instruction pointer against the
/// cache. See `Cache::resolve`.
pub fn resolve(cache: &mut Cache, what: ResolveWhat, supplied: Option<Supplied>, loader: Option<dladdr::Symbol>) -> (r: Vec<Symbol>)
    ensures
        symbol_views(r@) == resolution(
            old(cache).format(),
            old(cache).libraries(),
            old(cache).identity(),
            old(cache)@,
            what.address(),
            offered(old(cache).format(), supplied),
            loader_view(loader),
        ),
        final(cache)@ == entries_after(
            old(cache).format(),
            old(cache).libraries(),
            old(cache).identity(),
            old(cache)@,
            what.address(),
            offered(old(cache).format(), supplied),
        ),
        valid_entries(old(cache).format(), final(cache)@),
        final(cache).libraries() == old(cache).libraries(),
        final(cache).identity() == old(cache).identity(),
        final(cache).format() == old(cache).format(),
{
    cache.resolve(what.address_or_ip(), supplied, loader)
}

/// Drops every parsed debug context and takes `libraries`, the images
/// loaded now, as the list that addresses are translated against. This
/// is needed after a library was loaded or unloaded.
pub fn clear_symbol_cache(cache: &mut Cache, libraries: Vec<Library>)
    ensures
        final(cache)@ == Seq::<(usize, Seq<u8>)>::empty(),
        final(cache).libraries() == libraries@,
        final(cache).identity() == old(cache).identity(),
        final(cache).format() == old(cache).format(),
{
    cache.clear(libraries)
}

} // verus!
