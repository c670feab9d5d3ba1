//! Reading Mach-O images: the debug sections of the `__DWARF` segment,
//! the fallback symbol table, and the identifier that ties an image to
//! its bundle of debug information.
//!
//! The byte-level decoding of the file format is done by the `object`
//! crate, on little-endian 64-bit images. What the load commands mean for
//! symbolizing is decided here.
use super::symtab::{
    last_at_most, lemma_sorted_by_address, search_preceding, sort_by_address, sorted_by_address,
    ParsedSym,
};
use object::macho::MachHeader64;
use object::read::macho::{MachHeader, Nlist, Section, Segment};
use object::LittleEndian;
use vstd::prelude::*;
use vstd::string::StringSliceAdditionalSpecFns;

verus! {

/// The header of the images that are read: 64-bit, little-endian.
type Mach = MachHeader64<LittleEndian>;

/// One record of a Mach-O symbol table, as the file holds it.
#[derive(Clone, Copy, Debug, PartialEq, Eq, Structural)]
pub struct MachSym {
    /// Offset of the name in the table's strings.
    pub name: u32,
    /// Whether the image only refers to the symbol.
    pub undefined: bool,
    /// The symbol's value, for code and data its address.
    pub value: u64,
}

/// What a load command says about segments.
#[derive(Debug)]
pub enum SegmentRecord {
    /// A 64-bit segment: its name and the names of its sections, `None`
    /// where the list of sections cannot be read.
    Segment { name: Vec<u8>, sections: Option<Vec<Vec<u8>>> },
    /// The command describes no segment.
    Other,
    /// The command claims to describe a segment and cannot be read.
    Malformed,
}

/// What a load command says about symbols.
#[derive(Debug)]
pub enum SymtabRecord {
    /// A symbol table: its records, `None` where they cannot be read.
    Symtab { symbols: Option<Vec<MachSym>> },
    /// The command describes no symbol table.
    Other,
    /// The command claims to describe a symbol table and cannot be read.
    Malformed,
}

/// Mathematical value of a `SegmentRecord`.
pub enum SegmentView {
    Segment { name: Seq<u8>, sections: Option<Seq<Seq<u8>>> },
    Other,
    Malformed,
}

/// Mathematical value of a `SymtabRecord`.
pub enum SymtabView {
    Symtab { symbols: Option<Seq<MachSym>> },
    Other,
    Malformed,
}

impl View for SegmentRecord {
    type V = SegmentView;

    open spec fn view(&self) -> SegmentView {
        match self {
            SegmentRecord::Segment { name, sections } => SegmentView::Segment {
                name: name@,
                sections: sections.deep_view(),
            },
            SegmentRecord::Other => SegmentView::Other,
            SegmentRecord::Malformed => SegmentView::Malformed,
        }
    }
}

impl View for SymtabRecord {
    type V = SymtabView;

    open spec fn view(&self) -> SymtabView {
        match self {
            SymtabRecord::Symtab { symbols } => SymtabView::Symtab {
                symbols: match symbols {
                    Some(list) => Some(list@),
                    None => None,
                },
            },
            SymtabRecord::Other => SymtabView::Other,
            SymtabRecord::Malformed => SymtabView::Malformed,
        }
    }
}

/// The values of a list of segment records.
pub open spec fn segment_views(records: Option<Vec<SegmentRecord>>) -> Option<Seq<SegmentView>> {
    match records {
        Some(list) => Some(list@.map_values(|r: SegmentRecord| r@)),
        None => None,
    }
}

/// The values of a list of symbol table records.
pub open spec fn symtab_views(records: Option<Vec<SymtabRecord>>) -> Option<Seq<SymtabView>> {
    match records {
        Some(list) => Some(list@.map_values(|r: SymtabRecord| r@)),
        None => None,
    }
}

/// The identifier that the `object` crate reads from the image's
/// `LC_UUID` command; `None` where the image cannot be read or has none.
pub uninterp spec fn macho_uuid(data: Seq<u8>) -> Option<Seq<u8>>;

/// What the `object` crate reads of segments from each load command of
/// the image, up to the first command that it cannot walk past; `None`
/// where it rejects the image's header.
pub uninterp spec fn macho_segments(data: Seq<u8>) -> Option<Seq<SegmentView>>;

/// What the `object` crate reads of symbol tables from each load
/// command of the image, up to the first command that it cannot walk
/// past; `None` where it rejects the image's header.
pub uninterp spec fn macho_symtabs(data: Seq<u8>) -> Option<Seq<SymtabView>>;

/// The zero-terminated string that the `object` crate reads at `offset`
/// of the strings of the symbol table that the load command number
/// `command` describes.
pub uninterp spec fn macho_string(data: Seq<u8>, command: usize, offset: u32) -> Option<Seq<u8>>;

/// The contents that the `object` crate reads for section number `index`
/// of the segment that the load command number `command` describes.
pub uninterp spec fn macho_section(data: Seq<u8>, command: usize, index: usize) -> Option<Seq<u8>>;

/// Calls `MachHeader::parse`, `MachHeader::endian` and
/// `MachHeader::uuid` of the `object` crate and copies the identifier.
/// The contract only names the outcome.
#[verifier::external_body]
fn read_macho_uuid(data: &[u8]) -> (r: Option<Vec<u8>>)
    ensures
        r.deep_view() == macho_uuid(data@),
{
    let header = Mach::parse(data, 0).ok()?;
    let endian = header.endian().ok()?;
    header.uuid(endian, data, 0).ok()?.map(|uuid| uuid.to_vec())
}

/// Walks the load commands with `LoadCommandIterator::next` of the
/// `object` crate, asks each for `LoadCommandData::segment_64` and copies
/// the names that `Segment::name`, `Segment::sections` and
/// `Section::name` give. The contract only names the outcome.
#[verifier::external_body]
fn read_macho_segments(data: &[u8]) -> (r: Option<Vec<SegmentRecord>>)
    ensures
        segment_views(r) == macho_segments(data@),
{
    let header = Mach::parse(data, 0).ok()?;
    let endian = header.endian().ok()?;
    let mut commands = header.load_commands(endian, data, 0).ok()?;
    let mut out = Vec::new();
    while let Ok(Some(command)) = commands.next() {
        out.push(match command.segment_64() {
            Ok(Some((segment, rest))) => SegmentRecord::Segment {
                name: segment.name().to_vec(),
                sections: segment.sections(endian, rest).ok().map(|list| list.iter().map(|s| s.name().to_vec()).collect()),
            },
            Ok(None) => SegmentRecord::Other,
            Err(_) => SegmentRecord::Malformed,
        });
    }
    Some(out)
}

/// Walks the load commands with `LoadCommandIterator::next` of the
/// `object` crate, asks each for `LoadCommandData::symtab` and copies the
/// fields of the records that `SymtabCommand::symbols` gives. The
/// contract only names the outcome.
#[verifier::external_body]
fn read_macho_symtabs(data: &[u8]) -> (r: Option<Vec<SymtabRecord>>)
    ensures
        symtab_views(r) == macho_symtabs(data@),
{
    let header = Mach::parse(data, 0).ok()?;
    let endian = header.endian().ok()?;
    let mut commands = header.load_commands(endian, data, 0).ok()?;
    let mut out = Vec::new();
    while let Ok(Some(command)) = commands.next() {
        out.push(match command.symtab() {
            Ok(Some(symtab)) => SymtabRecord::Symtab {
                symbols: symtab.symbols::<Mach, _>(endian, data).ok().map(|table| table.iter().map(|n| MachSym { name: n.n_strx(endian), undefined: n.is_undefined(), value: n.n_value(endian) }).collect()),
            },
            Ok(None) => SymtabRecord::Other,
            Err(_) => SymtabRecord::Malformed,
        });
    }
    Some(out)
}

/// Walks to the load command number `command` and calls
/// `StringTable::get` of the `object` crate on the strings of its symbol
/// table. The contract only names the outcome.
#[verifier::external_body]
fn read_macho_string(data: &[u8], command: usize, offset: u32) -> (r: Option<Vec<u8>>)
    ensures
        r.deep_view() == macho_string(data@, command, offset),
{
    let header = Mach::parse(data, 0).ok()?;
    let endian = header.endian().ok()?;
    let mut commands = header.load_commands(endian, data, 0).ok()?;
    for _ in 0..command {
        commands.next().ok()??;
    }
    let symtab = commands.next().ok()??.symtab().ok()??;
    let table = symtab.symbols::<Mach, _>(endian, data).ok()?;
    table.strings().get(offset).ok().map(|name| name.to_vec())
}

/// Walks to the load command number `command` and calls `Section::data`
/// of the `object` crate on section number `index` of its segment. The
/// contract only names the outcome.
#[verifier::external_body]
fn read_macho_section(data: &[u8], command: usize, index: usize) -> (r: Option<Vec<u8>>)
    ensures
        r.deep_view() == macho_section(data@, command, index),
{
    let header = Mach::parse(data, 0).ok()?;
    let endian = header.endian().ok()?;
    let mut commands = header.load_commands(endian, data, 0).ok()?;
    for _ in 0..command {
        commands.next().ok()??;
    }
    let (segment, rest) = commands.next().ok()??.segment_64().ok()??;
    let section = segment.sections(endian, rest).ok()?.get(index)?;
    section.data(endian, data).ok().map(|bytes| bytes.to_vec())
}

/// The identifier that ties the image to its bundle of debug
/// information; `None` where the image cannot be read or carries none.
pub fn uuid(data: &[u8]) -> (r: Option<Vec<u8>>)
    ensures
        r.deep_view() == macho_uuid(data@),
{
    read_macho_uuid(data)
}

/// Name of the segment that holds the debug sections, `__DWARF`.
pub open spec fn dwarf_segment() -> Seq<u8> {
    seq![0x5fu8, 0x5f, 0x44, 0x57, 0x41, 0x52, 0x46]
}

/// What the load commands read so far have established.
pub struct Scan {
    /// The load command of the debug segment met last, with the names
    /// of its sections; `None` before any was met, or where the sections
    /// of the one met last cannot be read.
    pub dwarf: Option<(usize, Seq<Seq<u8>>)>,
    /// The load command of the symbol table met last.
    pub table: usize,
    /// The entries taken from that symbol table, in file order.
    pub kept: Seq<ParsedSym>,
}

/// Whether a symbol record enters the fallback table: symbols that the
/// image defines and that have a name.
pub open spec fn is_kept(data: Seq<u8>, command: usize, s: MachSym) -> bool {
    !s.undefined && (macho_string(data, command, s.name) matches Some(name) && name.len() > 0)
}

/// The table entry made from a symbol record. The format records no
/// sizes.
pub open spec fn parsed(s: MachSym) -> ParsedSym {
    ParsedSym { address: s.value, size: 0, name: s.name }
}

/// The records of `raw` that enter the table, in file order.
pub open spec fn kept_symbols(data: Seq<u8>, command: usize, raw: Seq<MachSym>) -> Seq<ParsedSym> {
    raw.filter(|s: MachSym| is_kept(data, command, s)).map_values(|s: MachSym| parsed(s))
}

/// What the `i`-th load command says about symbols; nothing where the
/// list is shorter.
pub open spec fn symtab_at(tabs: Seq<SymtabView>, i: int) -> SymtabView {
    if 0 <= i < tabs.len() {
        tabs[i]
    } else {
        SymtabView::Other
    }
}

/// What is established after one more load command. A segment named
/// `__DWARF` becomes the debug segment. A symbol table replaces the
/// table met before. A command that cannot be read ends the scan
/// without result.
pub open spec fn scan_step(data: Seq<u8>, before: Scan, segment: SegmentView, symtab: SymtabView, i: usize) -> Option<Scan> {
    match segment {
        SegmentView::Malformed => None,
        SegmentView::Segment { name, sections } => if name == dwarf_segment() {
            Some(
                Scan {
                    dwarf: match sections {
                        Some(names) => Some((i, names)),
                        None => None,
                    },
                    table: before.table,
                    kept: before.kept,
                },
            )
        } else {
            Some(before)
        },
        SegmentView::Other => match symtab {
            SymtabView::Malformed => None,
            SymtabView::Symtab { symbols: None } => None,
            SymtabView::Symtab { symbols: Some(raw) } => Some(
                Scan { dwarf: before.dwarf, table: i, kept: kept_symbols(data, i, raw) },
            ),
            SymtabView::Other => Some(before),
        },
    }
}

/// What the first `n` load commands establish.
pub open spec fn scanned(data: Seq<u8>, segments: Seq<SegmentView>, tabs: Seq<SymtabView>, n: nat) -> Option<Scan>
    decreases n,
{
    if n == 0 {
        Some(Scan { dwarf: None, table: 0, kept: Seq::empty() })
    } else {
        match scanned(data, segments, tabs, (n - 1) as nat) {
            None => None,
            Some(before) => scan_step(
                data,
                before,
                segments[n - 1],
                symtab_at(tabs, n - 1),
                (n - 1) as usize,
            ),
        }
    }
}

/// What the load commands of an image establish; `None` where the image
/// is no object.
pub open spec fn scan_of(data: Seq<u8>) -> Option<Scan> {
    match (macho_segments(data), macho_symtabs(data)) {
        (Some(segments), Some(tabs)) => scanned(data, segments, tabs, segments.len()),
        _ => None,
    }
}

/// Whether the section called `section` holds what is asked for as
/// `name`: the names are equal, or differ only in that the section's
/// begins with two underscores where the other begins with a dot.
pub open spec fn names_match(section: Seq<u8>, name: Seq<u8>) -> bool {
    section == name || (section.len() >= 2 && section[0] == 0x5f && section[1] == 0x5f && name.len() >= 1
        && name[0] == 0x2e && section.skip(2) == name.skip(1))
}

/// Whether `i` is the place of the first section holding `name`.
pub open spec fn is_first_match(sections: Seq<Seq<u8>>, name: Seq<u8>, i: int) -> bool {
    &&& 0 <= i < sections.len()
    &&& names_match(sections[i], name)
    &&& forall|k: int| 0 <= k < i ==> !names_match(#[trigger] sections[k], name)
}

/// The contents of the debug section asked for as `name`.
pub open spec fn section_of(data: Seq<u8>, name: Seq<u8>) -> Option<Seq<u8>>
    recommends
        scan_of(data) is Some,
{
    match scan_of(data).unwrap().dwarf {
        None => None,
        Some((command, sections)) => if exists|i: int| is_first_match(sections, name, i) {
            macho_section(data, command, (choose|i: int| is_first_match(sections, name, i)) as usize)
        } else {
            None
        },
    }
}

/// The fallback symbol table of an image: the kept records ordered by
/// address.
pub open spec fn symbol_table(data: Seq<u8>) -> Seq<ParsedSym>
    recommends
        scan_of(data) is Some,
{
    sorted_by_address(scan_of(data).unwrap().kept)
}

/// The name found for `addr` in the fallback table of the image: that
/// of the last symbol starting at or below `addr`.
pub open spec fn symtab_name(data: Seq<u8>, addr: u64) -> Option<Seq<u8>>
    recommends
        scan_of(data) is Some,
{
    let table = symbol_table(data);
    match last_at_most(table, addr) {
        None => None,
        Some(i) => macho_string(data, scan_of(data).unwrap().table, table[i].name),
    }
}

/// A parsed Mach-O image: the file's bytes and what its load commands
/// establish.
pub struct Object {
    data: Vec<u8>,
    dwarf: Option<(usize, Vec<Vec<u8>>)>,
    table: usize,
    syms: Vec<ParsedSym>,
}

impl View for Object {
    type V = Seq<u8>;

    /// The bytes of the image. Everything else an `Object` holds is
    /// derived from them.
    closed spec fn view(&self) -> Seq<u8> {
        self.data@
    }
}

/// Whether two runs of bytes are equal.
pub(crate) fn same_bytes(a: &[u8], b: &[u8]) -> (r: bool)
    ensures
        r == (a@ == b@),
{
    if a.len() != b.len() {
        return false;
    }
    let mut i: usize = 0;
    while i < a.len()
        invariant
            i <= a.len(),
            a.len() == b.len(),
            forall|k: int| 0 <= k < i ==> a@[k] == b@[k],
        decreases a.len() - i,
    {
        if a[i] != b[i] {
            return false;
        }
        i += 1;
    }
    assert(a@ =~= b@);
    true
}

/// Whether a section's name answers to the name asked for.
fn matches_name(section: &[u8], name: &[u8]) -> (r: bool)
    ensures
        r == names_match(section@, name@),
{
    if same_bytes(section, name) {
        return true;
    }
    if section.len() >= 2 && section[0] == 0x5f && section[1] == 0x5f && name.len() >= 1 && name[0] == 0x2e {
        let tail = vstd::slice::slice_subrange(section, 2, section.len());
        let rest = vstd::slice::slice_subrange(name, 1, name.len());
        proof {
            assert(tail@ =~= section@.skip(2));
            assert(rest@ =~= name@.skip(1));
        }
        same_bytes(tail, rest)
    } else {
        false
    }
}

impl Object {
    /// The dwarf sections as the scan describes them.
    spec fn dwarf_view(&self) -> Option<(usize, Seq<Seq<u8>>)> {
        match self.dwarf {
            Some((command, names)) => Some((command, names.deep_view())),
            None => None,
        }
    }

    #[verifier::type_invariant]
    spec fn well_formed(&self) -> bool {
        &&& scan_of(self.data@) is Some
        &&& self.dwarf_view() == scan_of(self.data@).unwrap().dwarf
        &&& self.table == scan_of(self.data@).unwrap().table
        &&& self.syms@ == symbol_table(self.data@)
    }

    /// Selects from `raw` the records that enter the table.
    fn select(data: &Vec<u8>, command: usize, raw: &Vec<MachSym>) -> (out: Vec<ParsedSym>)
        ensures
            out@ == kept_symbols(data@, command, raw@),
    {
        let mut out: Vec<ParsedSym> = Vec::new();
        let mut i: usize = 0;
        let ghost keep = |s: MachSym| is_kept(data@, command, s);
        proof {
            assert(raw@.take(0).filter(keep) =~= Seq::<MachSym>::empty()) by {
                reveal(Seq::filter);
            }
            assert(kept_symbols(data@, command, raw@.take(0)) =~= Seq::<ParsedSym>::empty());
        }
        while i < raw.len()
            invariant
                i <= raw.len(),
                keep == |s: MachSym| is_kept(data@, command, s),
                out@ == kept_symbols(data@, command, raw@.take(i as int)),
            decreases raw.len() - i,
        {
            let s = raw[i];
            let named = if s.undefined {
                false
            } else {
                match read_macho_string(data.as_slice(), command, s.name) {
                    Some(name) => name.len() > 0,
                    None => false,
                }
            };
            proof {
                let head = raw@.take(i as int);
                assert(named == is_kept(data@, command, s));
                assert(raw@.take(i + 1) =~= head.push(s));
                assert(head.push(s).filter(keep) =~= if is_kept(data@, command, s) {
                    head.filter(keep).push(s)
                } else {
                    head.filter(keep)
                }) by {
                    reveal(Seq::filter);
                    assert(head.push(s).drop_last() =~= head);
                }
                if named {
                    assert(kept_symbols(data@, command, head.push(s)) =~= kept_symbols(
                        data@,
                        command,
                        head,
                    ).push(parsed(s)));
                }
            }
            if named {
                out.push(ParsedSym { address: s.value, size: 0, name: s.name });
            }
            i += 1;
        }
        proof {
            assert(raw@.take(raw.len() as int) =~= raw@);
        }
        out
    }

    /// Parses a Mach-O image. `None` is returned exactly where the image
    /// is no object; the object returned stands for the bytes given.
    #[verifier::loop_isolation(false)]
    pub fn parse(data: Vec<u8>) -> (r: Option<Object>)
        ensures
            r is Some <==> scan_of(data@) is Some,
            r matches Some(object) ==> object@ == data@,
    {
        let segments = read_macho_segments(data.as_slice())?;
        let tabs = read_macho_symtabs(data.as_slice())?;
        let ghost segs = macho_segments(data@).unwrap();
        let ghost syms = macho_symtabs(data@).unwrap();
        let mut dwarf: Option<(usize, Vec<Vec<u8>>)> = None;
        let mut table: usize = 0;
        let mut kept: Vec<ParsedSym> = Vec::new();
        let mut i: usize = 0;
        while i < segments.len()
            invariant
                i <= segments.len(),
                segments@.map_values(|r: SegmentRecord| r@) == segs,
                tabs@.map_values(|r: SymtabRecord| r@) == syms,
                scanned(data@, segs, syms, i as nat) == Some(
                    Scan {
                        dwarf: match dwarf {
                            Some((command, list)) => Some((command, list.deep_view())),
                            None => None,
                        },
                        table,
                        kept: kept@,
                    },
                ),
            decreases segments.len() - i,
        {
            proof {
                assert(segs[i as int] == segments@[i as int]@);
                if i < tabs.len() {
                    assert(syms[i as int] == tabs@[i as int]@);
                }
            }
            match &segments[i] {
                SegmentRecord::Malformed => {
                    proof {
                        lemma_scan_fails(data@, segs, syms, (i + 1) as nat, segs.len());
                    }
                    return None;
                },
                SegmentRecord::Segment { name, sections } => {
                    if same_bytes(name.as_slice(), &[0x5f, 0x5f, 0x44, 0x57, 0x41, 0x52, 0x46]) {
                        dwarf = match sections {
                            Some(names) => Some((i, copy_names(names))),
                            None => None,
                        };
                    }
                },
                SegmentRecord::Other => {
                    if i < tabs.len() {
                        match &tabs[i] {
                            SymtabRecord::Malformed => {
                                proof {
                                    lemma_scan_fails(data@, segs, syms, (i + 1) as nat, segs.len());
                                }
                                return None;
                            },
                            SymtabRecord::Symtab { symbols: None } => {
                                proof {
                                    lemma_scan_fails(data@, segs, syms, (i + 1) as nat, segs.len());
                                }
                                return None;
                            },
                            SymtabRecord::Symtab { symbols: Some(raw) } => {
                                kept = Object::select(&data, i, raw);
                                table = i;
                            },
                            SymtabRecord::Other => {},
                        }
                    }
                },
            }
            i += 1;
        }
        let sorted = sort_by_address(&kept);
        Some(Object { data, dwarf, table, syms: sorted })
    }

    /// The number of entries in the fallback symbol table.
    pub fn symbol_count(&self) -> (n: usize)
        ensures
            scan_of(self@) is Some,
            n == symbol_table(self@).len(),
    {
        proof {
            use_type_invariant(self);
        }
        self.syms.len()
    }

    /// Returns a copy of the debug section asked for as `name`, or `None`
    /// where the image has no readable section answering to it.
    #[verifier::loop_isolation(false)]
    pub fn section(&self, name: &str) -> (r: Option<Vec<u8>>)
        ensures
            scan_of(self@) is Some,
            r.deep_view() == section_of(self@, name.spec_bytes()),
    {
        proof {
            use_type_invariant(self);
        }
        let wanted = name.as_bytes();
        match &self.dwarf {
            None => None,
            Some((command, sections)) => {
                let ghost listed = sections.deep_view();
                let mut i: usize = 0;
                while i < sections.len()
                    invariant
                        i <= sections.len(),
                        listed == sections.deep_view(),
                        wanted@ == name.spec_bytes(),
                        forall|k: int| 0 <= k < i ==> !names_match(#[trigger] listed[k], wanted@),
                    decreases sections.len() - i,
                {
                    proof {
                        assert(listed[i as int] =~= sections@[i as int]@);
                    }
                    if matches_name(sections[i].as_slice(), wanted) {
                        proof {
                            assert(is_first_match(listed, wanted@, i as int));
                            let j = choose|j: int| is_first_match(listed, wanted@, j);
                            if j < i {
                                assert(!names_match(listed[j], wanted@));
                            } else if i < j {
                                assert(!names_match(listed[i as int], wanted@));
                            }
                        }
                        return read_macho_section(self.data.as_slice(), *command, i);
                    }
                    i += 1;
                }
                proof {
                    assert forall|j: int| !is_first_match(listed, wanted@, j) by {
                        if 0 <= j < listed.len() {
                            assert(!names_match(listed[j], wanted@));
                        }
                    }
                }
                None
            },
        }
    }

    /// Looks `addr` up in the fallback symbol table and returns the name
    /// of the closest symbol at or below it.
    pub fn search_symtab(&self, addr: u64) -> (r: Option<Vec<u8>>)
        ensures
            scan_of(self@) is Some,
            r.deep_view() == symtab_name(self@, addr),
    {
        proof {
            use_type_invariant(self);
            lemma_sorted_by_address(scan_of(self.data@).unwrap().kept);
        }
        let i = search_preceding(&self.syms, addr)?;
        read_macho_string(self.data.as_slice(), self.table, self.syms[i].name)
    }
}

/// A copy of a list of names.
fn copy_names(names: &Vec<Vec<u8>>) -> (r: Vec<Vec<u8>>)
    ensures
        r.deep_view() == names.deep_view(),
{
    let mut r: Vec<Vec<u8>> = Vec::new();
    let mut i: usize = 0;
    while i < names.len()
        invariant
            i <= names.len(),
            r.len() == i,
            forall|k: int| 0 <= k < i ==> (#[trigger] r@[k])@ == names@[k]@,
        decreases names.len() - i,
    {
        r.push(vstd::slice::slice_to_vec(names[i].as_slice()));
        i += 1;
    }
    assert(r.deep_view() =~= names.deep_view()) by {
        assert forall|k: int| 0 <= k < r.len() implies r.deep_view()[k] == names.deep_view()[k] by {
            assert(r@[k].deep_view() =~= r@[k]@);
            assert(names@[k].deep_view() =~= names@[k]@);
        }
    }
    r
}

/// Once a load command has ended the scan without result, the scan of
/// more commands is without result too.
proof fn lemma_scan_fails(data: Seq<u8>, segments: Seq<SegmentView>, tabs: Seq<SymtabView>, failed: nat, n: nat)
    requires
        failed <= n,
        scanned(data, segments, tabs, failed) is None,
    ensures
        scanned(data, segments, tabs, n) is None,
    decreases n,
{
    if failed < n {
        lemma_scan_fails(data, segments, tabs, failed, (n - 1) as nat);
    }
}

} // verus!
