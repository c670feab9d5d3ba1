//! The bounded cache of parsed debug contexts, kept in order of use, and
//! the chain of lookups that resolves an address against it.
use super::dwarf::{frame_views, frames_at, FrameRecord, FrameView};
use super::laws::lemma_position_exists;
use super::mapping::{
    debug_sections, lemma_source_usable, offered, symtab_name, usable_image, Format, Mapping, Supplied,
};
use super::{
    is_first_containing, library_contains, segment_contains, stated_address, translated, Library,
    Symbol, SymbolView, symbol_views, CURRENT_EXECUTABLE,
};
use crate::symbolize::dladdr;
use vstd::prelude::*;

verus! {

/// Number of parsed debug contexts that the cache retains.
pub const MAPPINGS_CACHE_SIZE: usize = 4;

/// The keys of cache entries, most recently used first.
pub open spec fn keys_of(entries: Seq<(usize, Seq<u8>)>) -> Seq<usize> {
    entries.map_values(|e: (usize, Seq<u8>)| e.0)
}

/// Whether `entries` can be the contents of a cache: within capacity, no
/// library twice, every image usable.
pub open spec fn valid_entries(format: Format, entries: Seq<(usize, Seq<u8>)>) -> bool {
    &&& entries.len() <= MAPPINGS_CACHE_SIZE
    &&& forall|i: int, j: int| 0 <= i < j < entries.len() ==> entries[i].0 != entries[j].0
    &&& forall|i: int| 0 <= i < entries.len() ==> usable_image(format, #[trigger] entries[i].1)
}

/// Whether `i` is the place of library `lib` among `entries`.
pub open spec fn is_position(entries: Seq<(usize, Seq<u8>)>, lib: usize, i: int) -> bool {
    &&& 0 <= i < entries.len()
    &&& entries[i].0 == lib
    &&& forall|k: int| 0 <= k < i ==> (#[trigger] entries[k]).0 != lib
}

/// The place of library `lib` among `entries`, if it is cached.
pub open spec fn position(entries: Seq<(usize, Seq<u8>)>, lib: usize) -> Option<int> {
    if exists|i: int| is_position(entries, lib, i) {
        Some(choose|i: int| is_position(entries, lib, i))
    } else {
        None
    }
}

/// Whether a context for `lib` is available: it is cached, or the image
/// supplied for it is usable.
pub open spec fn available(format: Format, entries: Seq<(usize, Seq<u8>)>, lib: usize, image: Option<Seq<u8>>) -> bool {
    position(entries, lib) is Some || (image matches Some(data) && usable_image(format, data))
}

/// The cache after a context for `lib` was asked for. A cached entry
/// moves to the front. Otherwise a usable image enters at the front, the
/// entry at the back leaving first where the cache is full; without a
/// usable image nothing changes.
pub open spec fn after_lookup(format: Format, entries: Seq<(usize, Seq<u8>)>, lib: usize, image: Option<Seq<u8>>) -> Seq<(usize, Seq<u8>)> {
    match position(entries, lib) {
        Some(i) => seq![entries[i]] + entries.remove(i),
        None => match image {
            Some(data) => if usable_image(format, data) {
                if entries.len() >= MAPPINGS_CACHE_SIZE {
                    seq![(lib, data)] + entries.take(MAPPINGS_CACHE_SIZE - 1)
                } else {
                    seq![(lib, data)] + entries
                }
            } else {
                entries
            },
            None => entries,
        },
    }
}

/// One symbol per frame that the debug information reports, innermost
/// first, each carrying the stated address.
pub open spec fn frame_symbols(svma: usize, frames: Seq<FrameView>) -> Seq<SymbolView> {
    frames.map_values(|f: FrameView| SymbolView::Frame { addr: svma, location: f.location, name: f.name })
}

/// What the image `data` says about the stated address `svma`: the
/// frames of its debug information; if there are none, the one name its
/// symbol table has; else nothing.
pub open spec fn image_symbols(format: Format, data: Seq<u8>, svma: usize) -> Seq<SymbolView> {
    let frames = frames_at(debug_sections(format, data), svma as u64);
    if frames.len() > 0 {
        frame_symbols(svma, frames)
    } else {
        match symtab_name(format, data, svma as u64) {
            Some(name) => seq![SymbolView::Symtab { addr: svma, name }],
            None => Seq::empty(),
        }
    }
}

/// What the images say about the runtime address `addr`: nothing where
/// no library contains it or no context is available for the library.
pub open spec fn mapped_symbols(
    format: Format,
    libs: Seq<Library>,
    identity: bool,
    entries: Seq<(usize, Seq<u8>)>,
    addr: usize,
    image: Option<Seq<u8>>,
) -> Seq<SymbolView> {
    match translated(libs, identity, addr) {
        Some((lib, svma)) => if available(format, entries, lib, image) {
            image_symbols(format, after_lookup(format, entries, lib, image)[0].1, svma)
        } else {
            Seq::empty()
        },
        None => Seq::empty(),
    }
}

/// The cache after resolving `addr`.
pub open spec fn entries_after(
    format: Format,
    libs: Seq<Library>,
    identity: bool,
    entries: Seq<(usize, Seq<u8>)>,
    addr: usize,
    image: Option<Seq<u8>>,
) -> Seq<(usize, Seq<u8>)> {
    match translated(libs, identity, addr) {
        Some((lib, svma)) => after_lookup(format, entries, lib, image),
        None => entries,
    }
}

/// The symbols reported for `addr`: what the images say, and only where
/// they say nothing, what the dynamic loader found.
pub open spec fn resolution(
    format: Format,
    libs: Seq<Library>,
    identity: bool,
    entries: Seq<(usize, Seq<u8>)>,
    addr: usize,
    image: Option<Seq<u8>>,
    loader: Option<dladdr::SymbolView>,
) -> Seq<SymbolView> {
    let mapped = mapped_symbols(format, libs, identity, entries, addr, image);
    if mapped.len() > 0 {
        mapped
    } else {
        dladdr::resolved(loader).map_values(|s: dladdr::SymbolView| SymbolView::Dladdr(s))
    }
}

/// The loaded libraries and the debug contexts parsed so far.
///
/// The contexts form a small cache in order of use: the context used last
/// stands first, and where a new one would exceed the capacity the one
/// unused for longest is dropped.
pub struct Cache {
    libraries: Vec<Library>,
    identity: bool,
    format: Format,
    mappings: Vec<(usize, Mapping)>,
}

impl View for Cache {
    type V = Seq<(usize, Seq<u8>)>;

    /// The cached library indices with the bytes of their images, most
    /// recently used first.
    closed spec fn view(&self) -> Seq<(usize, Seq<u8>)> {
        self.mappings@.map_values(|e: (usize, Mapping)| (e.0, e.1@))
    }
}

impl Cache {
    #[verifier::type_invariant]
    spec fn well_formed(&self) -> bool {
        &&& valid_entries(self.format, self@)
        &&& forall|i: int| 0 <= i < self.mappings@.len() ==> (#[trigger] self.mappings@[i]).1.format() == self.format
    }

    /// The object file format of the libraries.
    pub closed spec fn format(&self) -> Format {
        self.format
    }

    /// The libraries that addresses are translated against.
    pub closed spec fn libraries(&self) -> Seq<Library> {
        self.libraries@
    }

    /// Whether addresses are taken as stated addresses of the current
    /// executable, for want of an enumeration of the loaded images.
    pub closed spec fn identity(&self) -> bool {
        self.identity
    }

    /// An empty cache over the enumerated libraries, whose files have
    /// the given format.
    pub fn new(format: Format, libraries: Vec<Library>) -> (c: Cache)
        ensures
            c.libraries() == libraries@,
            !c.identity(),
            c.format() == format,
            c@ == Seq::<(usize, Seq<u8>)>::empty(),
    {
        let c = Cache { libraries, identity: false, format, mappings: Vec::new() };
        assert(c@ =~= Seq::<(usize, Seq<u8>)>::empty());
        c
    }

    /// An empty cache for a platform on which the loaded images cannot
    /// be enumerated.
    pub fn without_enumeration(format: Format) -> (c: Cache)
        ensures
            c.libraries() == Seq::<Library>::empty(),
            c.identity(),
            c.format() == format,
            c@ == Seq::<(usize, Seq<u8>)>::empty(),
    {
        let c = Cache { libraries: Vec::new(), identity: true, format, mappings: Vec::new() };
        assert(c@ =~= Seq::<(usize, Seq<u8>)>::empty());
        c
    }

    /// Number of cached contexts.
    pub fn len(&self) -> (n: usize)
        ensures
            n == self@.len(),
            n <= MAPPINGS_CACHE_SIZE,
            valid_entries(self.format(), self@),
    {
        proof {
            use_type_invariant(self);
        }
        self.mappings.len()
    }

    /// The cached library indices, most recently used first.
    pub fn keys(&self) -> (r: Vec<usize>)
        ensures
            r@ == keys_of(self@),
    {
        let mut out: Vec<usize> = Vec::new();
        let mut i: usize = 0;
        while i < self.mappings.len()
            invariant
                i <= self.mappings.len(),
                out@ == keys_of(self@).take(i as int),
            decreases self.mappings.len() - i,
        {
            out.push(self.mappings[i].0);
            assert(out@ =~= keys_of(self@).take(i + 1));
            i += 1;
        }
        assert(out@ =~= keys_of(self@));
        out
    }

    /// Drops every cached context and replaces the list of libraries by
    /// `libraries`, the images loaded now, so that later addresses are
    /// translated against these.
    pub fn clear(&mut self, libraries: Vec<Library>)
        ensures
            final(self)@ == Seq::<(usize, Seq<u8>)>::empty(),
            final(self).libraries() == libraries@,
            final(self).identity() == old(self).identity(),
            final(self).format() == old(self).format(),
    {
        self.mappings = Vec::new();
        assert(self@ =~= Seq::<(usize, Seq<u8>)>::empty());
        self.libraries = libraries;
    }

    /// Number of libraries that addresses are translated against.
    pub fn library_count(&self) -> (n: usize)
        ensures
            n == self.libraries().len(),
    {
        self.libraries.len()
    }

    /// The path of the file that library `lib` was loaded from; `None`
    /// stands for the current executable.
    pub fn library_name(&self, lib: usize) -> (r: Option<&Vec<u8>>)
        ensures
            r matches Some(name) ==> lib < self.libraries().len() && *name == self.libraries()[lib as int].name,
            r is None ==> lib >= self.libraries().len(),
    {
        if lib < self.libraries.len() {
            Some(&self.libraries[lib].name)
        } else {
            None
        }
    }

    /// Translates a runtime address into the index of the first library
    /// containing it and the address stated in that library's file.
    pub fn avma_to_svma(&self, addr: usize) -> (r: Option<(usize, usize)>)
        ensures
            r == translated(self.libraries(), self.identity(), addr),
            self.libraries().len() <= usize::MAX,
            !self.identity() ==> match r {
                Some((lib, svma)) => is_first_containing(self.libraries(), addr, lib as int) && svma
                    == stated_address(self.libraries()[lib as int].bias, addr),
                None => forall|i: int|
                    0 <= i < self.libraries().len() ==> !library_contains(
                        #[trigger] self.libraries()[i].segments@,
                        self.libraries()[i].bias,
                        addr,
                    ),
            },
    {
        let count: usize = self.libraries.len();
        if self.identity {
            return Some((CURRENT_EXECUTABLE, addr));
        }
        let mut i: usize = 0;
        while i < self.libraries.len()
            invariant
                i <= self.libraries.len(),
                !self.identity,
                forall|k: int|
                    0 <= k < i ==> !library_contains(
                        #[trigger] self.libraries@[k].segments@,
                        self.libraries@[k].bias,
                        addr,
                    ),
            decreases self.libraries.len() - i,
        {
            let lib = &self.libraries[i];
            if lib.contains(addr) {
                let ghost libs = self.libraries@;
                proof {
                    assert(is_first_containing(libs, addr, i as int));
                    let j = choose|j: int| is_first_containing(libs, addr, j);
                    assert(j == i) by {
                        if j < i {
                            assert(!library_contains(libs[j].segments@, libs[j].bias, addr));
                        } else if i < j {
                            assert(!library_contains(libs[i as int].segments@, libs[i as int].bias, addr));
                        }
                    }
                    let w = choose|w: int| 0 <= w < lib.segments@.len() && segment_contains(#[trigger] lib.segments@[w], lib.bias, addr);
                    assert(segment_contains(lib.segments@[w], lib.bias, addr));
                }
                let svma: i128 = addr as i128 - lib.bias as i128;
                return Some((i, svma as usize));
            }
            i += 1;
        }
        proof {
            let libs = self.libraries@;
            assert forall|j: int| !is_first_containing(libs, addr, j) by {
                if 0 <= j < libs.len() {
                    assert(!library_contains(libs[j].segments@, libs[j].bias, addr));
                }
            }
        }
        None
    }

    /// Place of `lib` among the cached contexts.
    fn find(&self, lib: usize) -> (r: Option<usize>)
        ensures
            match r {
                Some(i) => i < self@.len() && position(self@, lib) == Some(i as int),
                None => position(self@, lib) is None,
            },
    {
        let mut i: usize = 0;
        while i < self.mappings.len()
            invariant
                i <= self.mappings.len(),
                forall|k: int| 0 <= k < i ==> (#[trigger] self@[k]).0 != lib,
            decreases self.mappings.len() - i,
        {
            if self.mappings[i].0 == lib {
                proof {
                    assert(is_position(self@, lib, i as int));
                    let j = choose|j: int| is_position(self@, lib, j);
                    assert(j == i) by {
                        if j < i {
                            assert(self@[j].0 != lib);
                        } else if i < j {
                            assert(self@[i as int].0 != lib);
                        }
                    }
                }
                return Some(i);
            }
            i += 1;
        }
        proof {
            assert forall|j: int| !is_position(self@, lib, j) by {
                if 0 <= j < self@.len() {
                    assert(self@[j].0 != lib);
                }
            }
        }
        None
    }

    /// Whether a context for library `lib` is cached.
    pub fn contains(&self, lib: usize) -> (r: bool)
        ensures
            r == (position(self@, lib) is Some),
    {
        self.find(lib).is_some()
    }

    /// Makes the context of library `lib` the most recently used one.
    ///
    /// A cached context moves to the front. Otherwise the context is
    /// built from `supplied`, the bytes of the library's file and of
    /// what lies next to it, and enters at the front; where the cache is
    /// full the context at the back is dropped first. Where no usable
    /// file is supplied the cache stays as it is and `false` is
    /// returned. `supplied` is not looked at on a hit.
    pub fn mapping_for_lib(&mut self, lib: usize, supplied: Option<Supplied>) -> (found: bool)
        ensures
            final(self)@ == after_lookup(old(self).format(), old(self)@, lib, offered(old(self).format(), supplied)),
            found == available(old(self).format(), old(self)@, lib, offered(old(self).format(), supplied)),
            found ==> final(self)@.len() > 0 && final(self)@[0].0 == lib,
            valid_entries(old(self).format(), final(self)@),
            final(self).libraries() == old(self).libraries(),
            final(self).identity() == old(self).identity(),
            final(self).format() == old(self).format(),
    {
        proof {
            use_type_invariant(&*self);
        }
        let ghost before = self@;
        let ghost format = self.format;
        let format_now = self.format;
        match self.find(lib) {
            Some(idx) => {
                if idx != 0 {
                    let mut taken: Vec<(usize, Mapping)> = Vec::new();
                    core::mem::swap(&mut self.mappings, &mut taken);
                    let entry = taken.remove(idx);
                    taken.insert(0, entry);
                    proof {
                        let now = taken@.map_values(|e: (usize, Mapping)| (e.0, e.1@));
                        assert(now =~= seq![before[idx as int]] + before.remove(idx as int));
                        assert forall|i: int, j: int| 0 <= i < j < now.len() implies now[i].0 != now[j].0 by {
                            let oi = if i == 0 { idx as int } else if i <= idx { i - 1 } else { i };
                            let oj = if j <= idx { j - 1 } else { j };
                            assert(now[i] == before[oi] && now[j] == before[oj]);
                        }
                        assert forall|i: int| 0 <= i < now.len() implies usable_image(format, #[trigger] now[i].1) by {
                            let oi = if i == 0 { idx as int } else if i <= idx { i - 1 } else { i };
                            assert(now[i] == before[oi]);
                        }
                    }
                    self.mappings = taken;
                } else {
                    assert(before =~= seq![before[0]] + before.remove(0));
                }
                true
            },
            None => {
                let supplied = match supplied {
                    Some(supplied) => supplied,
                    None => {
                        return false;
                    },
                };
                proof {
                    lemma_source_usable(format, supplied.image@, supplied.bundle_views());
                }
                let mapping = match Mapping::from_supplied(format_now, supplied) {
                    Some(mapping) => mapping,
                    None => {
                        return false;
                    },
                };
                let ghost data = mapping@;
                let mut taken: Vec<(usize, Mapping)> = Vec::new();
                core::mem::swap(&mut self.mappings, &mut taken);
                if taken.len() == MAPPINGS_CACHE_SIZE {
                    taken.pop();
                }
                taken.insert(0, (lib, mapping));
                proof {
                    let now = taken@.map_values(|e: (usize, Mapping)| (e.0, e.1@));
                    let kept = if before.len() >= MAPPINGS_CACHE_SIZE {
                        before.take(MAPPINGS_CACHE_SIZE - 1)
                    } else {
                        before
                    };
                    assert(now =~= seq![(lib, data)] + kept);
                    assert forall|i: int, j: int| 0 <= i < j < now.len() implies now[i].0 != now[j].0 by {
                        assert(now[j] == before[j - 1]);
                        if i == 0 {
                            if before[j - 1].0 == lib {
                                lemma_position_exists(before, lib, j - 1);
                            }
                        } else {
                            assert(now[i] == before[i - 1]);
                        }
                    }
                    assert forall|i: int| 0 <= i < now.len() implies usable_image(format, #[trigger] now[i].1) by {
                        if i > 0 {
                            assert(now[i] == before[i - 1]);
                        }
                    }
                }
                self.mappings = taken;
                true
            },
        }
    }

    /// What the images say about the runtime address `addr`, on the way
    /// making the context of its library the most recently used one.
    ///
    /// `supplied` holds the bytes of the library's file and of what lies
    /// next to it; it is looked at only where the library has no cached
    /// context.
    pub fn resolve_mapped(&mut self, addr: usize, supplied: Option<Supplied>) -> (r: Vec<Symbol>)
        ensures
            symbol_views(r@) == mapped_symbols(
                old(self).format(),
                old(self).libraries(),
                old(self).identity(),
                old(self)@,
                addr,
                offered(old(self).format(), supplied),
            ),
            final(self)@ == entries_after(
                old(self).format(),
                old(self).libraries(),
                old(self).identity(),
                old(self)@,
                addr,
                offered(old(self).format(), supplied),
            ),
            valid_entries(old(self).format(), final(self)@),
            final(self).libraries() == old(self).libraries(),
            final(self).identity() == old(self).identity(),
            final(self).format() == old(self).format(),
    {
        proof {
            use_type_invariant(&*self);
        }
        let mut out: Vec<Symbol> = Vec::new();
        assert(symbol_views(out@) =~= Seq::<SymbolView>::empty());
        let (lib, svma) = match self.avma_to_svma(addr) {
            Some(pair) => pair,
            None => {
                return out;
            },
        };
        if !self.mapping_for_lib(lib, supplied) {
            return out;
        }
        proof {
            use_type_invariant(&*self);
        }
        let mapping = &self.mappings[0].1;
        let mut frames = mapping.frames(svma as u64);
        let ghost found = frames@;
        if frames.len() > 0 {
            assert(found.skip(found.len() as int) =~= Seq::<FrameRecord>::empty());
            assert(frame_symbols(svma, frame_views(Seq::<FrameRecord>::empty())) =~= Seq::<SymbolView>::empty());
            while frames.len() > 0
                invariant
                    frames@ == found.take(frames.len() as int),
                    frames.len() <= found.len(),
                    symbol_views(out@) == frame_symbols(svma, frame_views(found.skip(frames.len() as int))),
                decreases frames.len(),
            {
                let ghost n = frames.len() as int;
                let ghost earlier = out@;
                let frame = frames.pop().unwrap();
                out.insert(0, Symbol::Frame { addr: svma, location: frame.location, name: frame.name });
                proof {
                    assert(frame == found[n - 1]);
                    assert(frames@ =~= found.take(n - 1));
                    let target = frame_symbols(svma, frame_views(found.skip(n - 1)));
                    let rest = frame_symbols(svma, frame_views(found.skip(n)));
                    assert(symbol_views(earlier) == rest);
                    assert(symbol_views(earlier).len() == earlier.len());
                    assert(frame_views(found.skip(n)).len() == found.len() - n);
                    assert(rest.len() == found.len() - n);
                    assert(frame_views(found.skip(n - 1)).len() == found.len() - n + 1);
                    assert(out@.len() == earlier.len() + 1);
                    assert(symbol_views(out@).len() == target.len());
                    assert forall|k: int| 0 <= k < target.len() implies symbol_views(out@)[k] == target[k] by {
                        if k == 0 {
                            assert(found.skip(n - 1)[0] == found[n - 1]);
                        } else {
                            assert(out@[k] == earlier[k - 1]);
                            assert(symbol_views(earlier)[k - 1] == rest[k - 1]);
                            assert(found.skip(n - 1)[k] == found.skip(n)[k - 1]);
                        }
                    }
                    assert(symbol_views(out@) =~= target);
                }
            }
            assert(found.skip(0) =~= found);
        } else {
            match mapping.search_symtab(svma as u64) {
                Some(name) => {
                    assert(name.deep_view() =~= name@);
                    out.push(Symbol::Symtab { addr: svma, name });
                    assert(symbol_views(out@) =~= seq![SymbolView::Symtab { addr: svma, name: name@ }]);
                },
                None => {},
            }
        }
        out
    }

    /// Resolves the runtime address `addr`: the frames of the debug
    /// information of its image; failing that the name from the image's
    /// symbol table; failing that `loader`, the dynamic loader's answer
    /// for the address; failing that nothing, which is no error.
    pub fn resolve(&mut self, addr: usize, supplied: Option<Supplied>, loader: Option<dladdr::Symbol>) -> (r: Vec<Symbol>)
        ensures
            symbol_views(r@) == resolution(
                old(self).format(),
                old(self).libraries(),
                old(self).identity(),
                old(self)@,
                addr,
                offered(old(self).format(), supplied),
                loader_view(loader),
            ),
            final(self)@ == entries_after(
                old(self).format(),
                old(self).libraries(),
                old(self).identity(),
                old(self)@,
                addr,
                offered(old(self).format(), supplied),
            ),
            valid_entries(old(self).format(), final(self)@),
            final(self).libraries() == old(self).libraries(),
            final(self).identity() == old(self).identity(),
            final(self).format() == old(self).format(),
    {
        let mut out = self.resolve_mapped(addr, supplied);
        if out.len() == 0 {
            match loader {
                Some(s) => {
                    out.push(Symbol::Dladdr(s));
                    assert(symbol_views(out@) =~= dladdr::resolved(Some(s@)).map_values(
                        |s: dladdr::SymbolView| SymbolView::Dladdr(s),
                    ));
                },
                None => {
                    assert(symbol_views(out@) =~= dladdr::resolved(None).map_values(
                        |s: dladdr::SymbolView| SymbolView::Dladdr(s),
                    ));
                },
            }
        }
        out
    }
}

/// The value of the dynamic loader's answer.
pub open spec fn loader_view(loader: Option<dladdr::Symbol>) -> Option<dladdr::SymbolView> {
    match loader {
        Some(s) => Some(s@),
        None => None,
    }
}

} // verus!
