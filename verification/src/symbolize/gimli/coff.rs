//! Reading PE images: the fallback symbol table made of the function
//! symbols of the COFF symbol table, and named sections.
//!
//! The byte-level decoding of the file format is done by the `object`
//! crate, on 64-bit images. Which symbols enter the table, at which
//! address, and how an address is looked up is decided here.
use super::symtab::{
    last_at_most, lemma_sorted_by_address, search_preceding, sort_by_address, sorted_by_address,
    ParsedSym,
};
use object::pe::{ImageDosHeader, ImageNtHeaders64};
use object::read::coff::ImageSymbol;
use object::read::pe::{ImageNtHeaders, ImageOptionalHeader};
use object::read::{SectionIndex, SymbolIndex};
use object::LittleEndian;
use vstd::prelude::*;
use vstd::string::StringSliceAdditionalSpecFns;

verus! {

/// Derived type of a symbol that names a function.
pub const IMAGE_SYM_DTYPE_FUNCTION: u16 = 2;

/// One record of a COFF symbol table, as the file holds it.
#[derive(Clone, Copy, Debug, PartialEq, Eq)]
pub struct PeSym {
    /// Number of table slots after this one that belong to the symbol.
    pub aux: u8,
    /// Number of the section the symbol is defined in, counted from 1;
    /// zero and below for symbols that lie in no section.
    pub section_number: i32,
    /// The derived type of the symbol.
    pub derived_type: u16,
    /// The symbol's value, for a defined symbol its offset in the
    /// section.
    pub value: u32,
}

/// The slots of the COFF symbol table that the `object` crate reads
/// from the 64-bit PE image `data`, a slot being `None` where the crate
/// cannot read it; `None` where the crate rejects the image.
pub uninterp spec fn pe_symbols(data: Seq<u8>) -> Option<Seq<Option<PeSym>>>;

/// For each section number from zero to the number of sections of the
/// image, the virtual address of the section that the `object` crate
/// finds under that number, or `None` where it finds none; `None` where
/// the crate rejects the image.
pub uninterp spec fn pe_section_addresses(data: Seq<u8>) -> Option<Seq<Option<u32>>>;

/// The preferred load address that the `object` crate reads from the
/// image's optional header.
pub uninterp spec fn pe_image_base(data: Seq<u8>) -> Option<u64>;

/// The name that the `object` crate reads for the symbol in slot `index`.
pub uninterp spec fn pe_symbol_name(data: Seq<u8>, index: usize) -> Option<Seq<u8>>;

/// The contents that the `object` crate reads for the section called
/// `name`.
pub uninterp spec fn pe_section(data: Seq<u8>, name: Seq<u8>) -> Option<Seq<u8>>;

/// Calls `ImageDosHeader::parse`, `ImageNtHeaders::parse`,
/// `ImageNtHeaders::symbols` and, for every slot, `SymbolTable::symbol`
/// of the `object` crate, and copies the fields of each record. The
/// contract only names the outcome.
#[verifier::external_body]
fn read_pe_symbols(data: &[u8]) -> (r: Option<Vec<Option<PeSym>>>)
    ensures
        match r {
            Some(v) => pe_symbols(data@) == Some(v@),
            None => pe_symbols(data@) is None,
        },
{
    let mut offset = ImageDosHeader::parse(data).ok()?.nt_headers_offset().into();
    let (nt, _) = ImageNtHeaders64::parse(data, &mut offset).ok()?;
    let table = nt.symbols(data).ok()?;
    Some((0..table.len()).map(|i| table.symbol(SymbolIndex(i)).ok().map(|s| PeSym {
        aux: s.number_of_aux_symbols(),
        section_number: s.section_number(),
        derived_type: s.derived_type(),
        value: s.value(),
    })).collect())
}

/// Calls `ImageNtHeaders::sections` and, for every section number up to
/// the number of sections, `SectionTable::section` of the `object` crate,
/// and copies the virtual address of what is found. The contract only
/// names the outcome.
#[verifier::external_body]
fn read_pe_section_addresses(data: &[u8]) -> (r: Option<Vec<Option<u32>>>)
    ensures
        match r {
            Some(v) => pe_section_addresses(data@) == Some(v@),
            None => pe_section_addresses(data@) is None,
        },
{
    let mut offset = ImageDosHeader::parse(data).ok()?.nt_headers_offset().into();
    let (nt, _) = ImageNtHeaders64::parse(data, &mut offset).ok()?;
    let sections = nt.sections(data, offset).ok()?;
    Some((0..=sections.len()).map(|n| sections.section(SectionIndex(n)).ok().map(|s| s.virtual_address.get(LittleEndian))).collect())
}

/// Calls `ImageOptionalHeader::image_base` of the `object` crate on the
/// headers of the image. The contract only names the outcome.
#[verifier::external_body]
fn read_pe_image_base(data: &[u8]) -> (r: Option<u64>)
    ensures
        r == pe_image_base(data@),
{
    let mut offset = ImageDosHeader::parse(data).ok()?.nt_headers_offset().into();
    let (nt, _) = ImageNtHeaders64::parse(data, &mut offset).ok()?;
    Some(nt.optional_header().image_base())
}

/// Calls `SymbolTable::symbol` and `ImageSymbol::name` of the `object`
/// crate and copies the name. The contract only names the outcome.
#[verifier::external_body]
fn read_pe_symbol_name(data: &[u8], index: usize) -> (r: Option<Vec<u8>>)
    ensures
        r.deep_view() == pe_symbol_name(data@, index),
{
    let mut offset = ImageDosHeader::parse(data).ok()?.nt_headers_offset().into();
    let (nt, _) = ImageNtHeaders64::parse(data, &mut offset).ok()?;
    let table = nt.symbols(data).ok()?;
    table.symbol(SymbolIndex(index)).ok()?.name(table.strings()).ok().map(|name| name.to_vec())
}

/// Calls `SectionTable::section_by_name` and
/// `ImageSectionHeader::pe_data` of the `object` crate and copies the
/// bytes of the section. The contract only names the outcome.
#[verifier::external_body]
fn read_pe_section(data: &[u8], name: &[u8]) -> (r: Option<Vec<u8>>)
    ensures
        r.deep_view() == pe_section(data@, name@),
{
    let mut offset = ImageDosHeader::parse(data).ok()?.nt_headers_offset().into();
    let (nt, _) = ImageNtHeaders64::parse(data, &mut offset).ok()?;
    let strings = nt.symbols(data).ok()?.strings();
    let (_, section) = nt.sections(data, offset).ok()?.section_by_name(strings, name)?;
    section.pe_data(data).ok().map(|bytes| bytes.to_vec())
}

/// What an image holds for building the table: the symbol slots, the
/// address of each section by number, and the image base.
pub struct Parts {
    pub symbols: Seq<Option<PeSym>>,
    pub addresses: Seq<Option<u32>>,
    pub base: u64,
}

/// The parts of an image; `None` where one of them cannot be read or
/// the image base lies beyond the machine word.
pub open spec fn parts_of(data: Seq<u8>) -> Option<Parts> {
    match (pe_symbols(data), pe_section_addresses(data), pe_image_base(data)) {
        (Some(symbols), Some(addresses), Some(base)) => if base <= usize::MAX {
            Some(Parts { symbols, addresses, base })
        } else {
            None
        },
        _ => None,
    }
}

/// Whether a symbol enters the table: function symbols that lie in a
/// section. Section numbers count from 1; the number 0 marks a symbol
/// that the image only refers to.
pub open spec fn is_kept(s: PeSym) -> bool {
    s.derived_type == IMAGE_SYM_DTYPE_FUNCTION && s.section_number != 0
}

/// The address of a kept symbol: its value, the virtual address of its
/// section and the image base together. `None` where the section number
/// names no section, or the address lies beyond the machine word.
pub open spec fn address_of(parts: Parts, s: PeSym) -> Option<u64> {
    if 0 < s.section_number < parts.addresses.len() {
        match parts.addresses[s.section_number as int] {
            Some(va) => if s.value + va + parts.base <= usize::MAX {
                Some((s.value + va + parts.base) as u64)
            } else {
                None
            },
            None => None,
        }
    } else {
        None
    }
}

/// The slot at which the symbol after the one in slot `i` stands, or
/// the end of the table.
pub open spec fn following(parts: Parts, i: int, s: PeSym) -> int {
    if i + 1 + s.aux >= parts.symbols.len() {
        parts.symbols.len() as int
    } else {
        i + 1 + s.aux
    }
}

/// The table entries made from the slots from `i` on, in file order,
/// the slots that belong to a symbol before them being passed over.
/// `None` where a slot cannot be read or a kept symbol has no address.
pub open spec fn entries_from(parts: Parts, i: int) -> Option<Seq<ParsedSym>>
    decreases parts.symbols.len() - i,
{
    if i < 0 || i >= parts.symbols.len() {
        Some(Seq::empty())
    } else {
        match parts.symbols[i] {
            None => None,
            Some(s) => {
                let next = following(parts, i, s);
                if !is_kept(s) {
                    entries_from(parts, next)
                } else if i > u32::MAX {
                    None
                } else {
                    match (address_of(parts, s), entries_from(parts, next)) {
                        (Some(address), Some(rest)) => Some(
                            seq![ParsedSym { address, size: 0, name: i as u32 }] + rest,
                        ),
                        _ => None,
                    }
                }
            },
        }
    }
}

/// The entries of the fallback table of an image in file order; `None`
/// where the image is no object.
pub open spec fn entries_of(data: Seq<u8>) -> Option<Seq<ParsedSym>> {
    match parts_of(data) {
        Some(parts) => entries_from(parts, 0),
        None => None,
    }
}

/// The fallback symbol table of an image: its entries ordered by
/// address.
pub open spec fn symbol_table(data: Seq<u8>) -> Seq<ParsedSym>
    recommends
        entries_of(data) is Some,
{
    sorted_by_address(entries_of(data).unwrap())
}

/// The name found for `addr` in the fallback table of the image: that
/// of the closest symbol at or below `addr`. The format records no
/// sizes, so the symbol found need not cover `addr`.
pub open spec fn symtab_name(data: Seq<u8>, addr: u64) -> Option<Seq<u8>>
    recommends
        entries_of(data) is Some,
{
    let table = symbol_table(data);
    if addr > usize::MAX {
        None
    } else {
        match last_at_most(table, addr) {
            None => None,
            Some(i) => pe_symbol_name(data, table[i].name as usize),
        }
    }
}

/// The entries read so far followed by what the remaining slots give.
pub open spec fn continued(done: Seq<ParsedSym>, rest: Option<Seq<ParsedSym>>) -> Option<Seq<ParsedSym>> {
    match rest {
        Some(more) => Some(done + more),
        None => None,
    }
}

/// A parsed PE image: the file's bytes and the fallback symbol table
/// derived from them.
pub struct Object {
    data: Vec<u8>,
    syms: Vec<ParsedSym>,
}

impl View for Object {
    type V = Seq<u8>;

    /// The bytes of the image. Everything else an `Object` holds is
    /// derived from them.
    closed spec fn view(&self) -> Seq<u8> {
        self.data@
    }
}

impl Object {
    #[verifier::type_invariant]
    spec fn well_formed(&self) -> bool {
        &&& entries_of(self.data@) is Some
        &&& self.syms@ == symbol_table(self.data@)
    }

    /// Parses a PE image. `None` is returned exactly where the image is
    /// no object; the object returned stands for the bytes given.
    #[verifier::loop_isolation(false)]
    pub fn parse(data: Vec<u8>) -> (r: Option<Object>)
        ensures
            r is Some <==> entries_of(data@) is Some,
            r matches Some(object) ==> object@ == data@,
    {
        let symbols = read_pe_symbols(data.as_slice())?;
        let addresses = read_pe_section_addresses(data.as_slice())?;
        let base = read_pe_image_base(data.as_slice())?;
        if base > usize::MAX as u64 {
            return None;
        }
        let ghost parts = parts_of(data@).unwrap();
        let mut kept: Vec<ParsedSym> = Vec::new();
        let mut i: usize = 0;
        proof {
            match entries_from(parts, 0) {
                Some(more) => {
                    assert(kept@ + more =~= more);
                },
                None => {},
            }
        }
        while i < symbols.len()
            invariant
                entries_from(parts, 0) == continued(kept@, entries_from(parts, i as int)),
            decreases symbols.len() - i,
        {
            let s = match symbols[i] {
                Some(s) => s,
                None => {
                    return None;
                },
            };
            let ghost done = kept@;
            let ghost next = following(parts, i as int, s);
            if s.derived_type == IMAGE_SYM_DTYPE_FUNCTION && s.section_number != 0 {
                if i > u32::MAX as usize || s.section_number < 0 || s.section_number as usize >= addresses.len() {
                    return None;
                }
                let va = match addresses[s.section_number as usize] {
                    Some(va) => va,
                    None => {
                        return None;
                    },
                };
                let total: u128 = s.value as u128 + va as u128 + base as u128;
                if total > usize::MAX as u128 {
                    return None;
                }
                let entry = ParsedSym { address: total as u64, size: 0, name: i as u32 };
                kept.push(entry);
                proof {
                    match entries_from(parts, next) {
                        Some(more) => {
                            assert(done + (seq![entry] + more) =~= done.push(entry) + more);
                        },
                        None => {},
                    }
                }
            }
            if s.aux as usize >= symbols.len() - i - 1 {
                i = symbols.len();
            } else {
                i = i + 1 + s.aux as usize;
            }
        }
        proof {
            assert(kept@ + Seq::<ParsedSym>::empty() =~= kept@);
        }
        let syms = sort_by_address(&kept);
        Some(Object { data, syms })
    }

    /// The number of entries in the fallback symbol table.
    pub fn symbol_count(&self) -> (n: usize)
        ensures
            entries_of(self@) is Some,
            n == symbol_table(self@).len(),
    {
        proof {
            use_type_invariant(self);
        }
        self.syms.len()
    }

    /// Returns a copy of the section called `name`, or `None` where the
    /// image has no readable section of that name.
    pub fn section(&self, name: &str) -> (r: Option<Vec<u8>>)
        ensures
            r.deep_view() == pe_section(self@, name.spec_bytes()),
    {
        read_pe_section(self.data.as_slice(), name.as_bytes())
    }

    /// Looks `addr` up in the fallback symbol table and returns the name
    /// of the closest symbol at or below it.
    pub fn search_symtab(&self, addr: u64) -> (r: Option<Vec<u8>>)
        ensures
            entries_of(self@) is Some,
            r.deep_view() == symtab_name(self@, addr),
    {
        proof {
            use_type_invariant(self);
            lemma_sorted_by_address(entries_of(self.data@).unwrap());
        }
        if addr > usize::MAX as u64 {
            return None;
        }
        let i = search_preceding(&self.syms, addr)?;
        read_pe_symbol_name(self.data.as_slice(), self.syms[i].name as usize)
    }
}

} // verus!
