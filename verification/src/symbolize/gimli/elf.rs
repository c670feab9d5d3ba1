//! Reading ELF images: the fallback symbol table and named sections.
//!
//! The byte-level decoding of the file format is done by the `object`
//! crate. Which symbols enter the table, how the table is ordered and how
//! an address is looked up in it is decided here.
use super::symtab::{
    ascending, last_at_most, lemma_sorted_by_address, search_preceding, sort_by_address,
    sorted_by_address, ParsedSym,
};
use object::read::elf::{FileHeader, SectionHeader, Sym};
use vstd::prelude::*;

verus! {

/// Section type of the full symbol table.
pub const SHT_SYMTAB: u32 = 2;

/// Section type of the dynamic-linking symbol table.
pub const SHT_DYNSYM: u32 = 11;

/// Symbol type of a data object.
pub const STT_OBJECT: u8 = 1;

/// Symbol type of a function.
pub const STT_FUNC: u8 = 2;

/// Section index of a symbol that the file only refers to.
pub const SHN_UNDEF: u16 = 0;

/// One record of an ELF symbol table, as the file holds it.
#[derive(Clone, Copy, Debug, PartialEq, Eq, Structural)]
pub struct ElfSym {
    /// Offset of the name in the table's string section.
    pub name: u32,
    /// The symbol's type, the low four bits of its info byte.
    pub kind: u8,
    /// Index of the section the symbol is defined in.
    pub section: u16,
    /// The symbol's value, for code and data its address.
    pub value: u64,
    /// The symbol's size in bytes.
    pub size: u64,
}

/// The records of the symbol table of kind `sh_type` that the `object`
/// crate reads from the little-endian 64-bit ELF image `data`: `None`
/// where it rejects the image, an empty table where the image has no
/// table of that kind.
pub uninterp spec fn elf_symbols(data: Seq<u8>, sh_type: u32) -> Option<Seq<ElfSym>>;

/// The zero-terminated string that the `object` crate reads at `offset`
/// of the string section belonging to the symbol table of kind `sh_type`
/// of the image `data`.
pub uninterp spec fn elf_string(data: Seq<u8>, sh_type: u32, offset: u32) -> Option<Seq<u8>>;

/// The contents that the `object` crate reads for the section called
/// `name` of the image `data`.
pub uninterp spec fn elf_section(data: Seq<u8>, name: Seq<char>) -> Option<Seq<u8>>;

/// Calls `FileHeader::parse`, `FileHeader::sections` and
/// `SectionTable::symbols` of the `object` crate on a little-endian 64-bit
/// header and copies the fields of every record. The contract only names
/// the outcome: it is whatever the crate decodes from these bytes.
#[verifier::external_body]
fn read_elf_symbols(data: &[u8], sh_type: u32) -> (r: Option<Vec<ElfSym>>)
    requires
        sh_type == SHT_SYMTAB || sh_type == SHT_DYNSYM,
    ensures
        match r {
            Some(v) => elf_symbols(data@, sh_type) == Some(v@),
            None => elf_symbols(data@, sh_type) is None,
        },
{
    let elf = object::elf::FileHeader64::<object::LittleEndian>::parse(data).ok()?;
    let endian = elf.endian().ok()?;
    let table = elf.sections(endian, data).ok()?.symbols(endian, data, sh_type).ok()?;
    Some(table.iter().map(|s| ElfSym {
        name: s.st_name(endian),
        kind: s.st_type(),
        section: s.st_shndx(endian),
        value: s.st_value(endian),
        size: s.st_size(endian),
    }).collect())
}

/// Calls `StringTable::get` of the `object` crate on the string section
/// of the symbol table of kind `sh_type` and copies the bytes found. The
/// contract only names the outcome.
#[verifier::external_body]
fn read_elf_string(data: &[u8], sh_type: u32, offset: u32) -> (r: Option<Vec<u8>>)
    requires
        sh_type == SHT_SYMTAB || sh_type == SHT_DYNSYM,
    ensures
        r.deep_view() == elf_string(data@, sh_type, offset),
{
    let elf = object::elf::FileHeader64::<object::LittleEndian>::parse(data).ok()?;
    let endian = elf.endian().ok()?;
    let table = elf.sections(endian, data).ok()?.symbols(endian, data, sh_type).ok()?;
    table.strings().get(offset).ok().map(|name| name.to_vec())
}

/// Calls `SectionTable::section_by_name` and `SectionHeader::data` of the
/// `object` crate and copies the bytes of the section. The contract only
/// names the outcome.
#[verifier::external_body]
fn read_elf_section(data: &[u8], name: &str) -> (r: Option<Vec<u8>>)
    ensures
        r.deep_view() == elf_section(data@, name@),
{
    let elf = object::elf::FileHeader64::<object::LittleEndian>::parse(data).ok()?;
    let endian = elf.endian().ok()?;
    let (_, section) = elf.sections(endian, data).ok()?.section_by_name(endian, name.as_bytes())?;
    section.data(endian, data).ok().map(|bytes| bytes.to_vec())
}

/// Whether a symbol record enters the fallback table: functions and data
/// objects that the image itself defines.
pub open spec fn is_kept(s: ElfSym) -> bool {
    (s.kind == STT_FUNC || s.kind == STT_OBJECT) && s.section != SHN_UNDEF
}

/// The table entry made from a symbol record.
pub open spec fn parsed(s: ElfSym) -> ParsedSym {
    ParsedSym { address: s.value, size: s.size, name: s.name }
}

/// The records of `raw` that enter the table, in file order.
pub open spec fn kept_symbols(raw: Seq<ElfSym>) -> Seq<ParsedSym> {
    raw.filter(|s: ElfSym| is_kept(s)).map_values(|s: ElfSym| parsed(s))
}

/// The symbol records an image is symbolized with, and the kind of table
/// they come from: the full table, or the dynamic one where the full
/// table is absent or empty. `None` where the image cannot be read.
pub open spec fn chosen_symbols(data: Seq<u8>) -> Option<(u32, Seq<ElfSym>)> {
    match elf_symbols(data, SHT_SYMTAB) {
        None => None,
        Some(full) => if full.len() > 0 {
            Some((SHT_SYMTAB, full))
        } else {
            match elf_symbols(data, SHT_DYNSYM) {
                None => None,
                Some(dynamic) => Some((SHT_DYNSYM, dynamic)),
            }
        },
    }
}

/// The fallback symbol table of an image: the kept records ordered by
/// address.
pub open spec fn symbol_table(data: Seq<u8>) -> Seq<ParsedSym>
    recommends
        chosen_symbols(data) is Some,
{
    sorted_by_address(kept_symbols(chosen_symbols(data).unwrap().1))
}

/// Whether `addr` lies within the extent of `sym`, both ends included.
pub open spec fn covers(sym: ParsedSym, addr: u64) -> bool {
    sym.address <= addr && addr <= sym.address + sym.size
}

/// The name found for `addr` in the fallback table of the image `data`:
/// that of the last symbol starting at or below `addr`, if `addr` lies
/// within its extent and its name can be read.
pub open spec fn symtab_name(data: Seq<u8>, addr: u64) -> Option<Seq<u8>>
    recommends
        chosen_symbols(data) is Some,
{
    let table = symbol_table(data);
    match last_at_most(table, addr) {
        None => None,
        Some(i) => if covers(table[i], addr) {
            elf_string(data, chosen_symbols(data).unwrap().0, table[i].name)
        } else {
            None
        },
    }
}

/// A parsed ELF image: the file's bytes and the fallback symbol table
/// derived from them.
pub struct Object {
    data: Vec<u8>,
    table: u32,
    syms: Vec<ParsedSym>,
}

impl View for Object {
    type V = Seq<u8>;

    /// The bytes of the image. Everything else an `Object` holds is
    /// derived from them.
    closed spec fn view(&self) -> Seq<u8> {
        self.data@
    }
}

impl Object {
    #[verifier::type_invariant]
    spec fn well_formed(&self) -> bool {
        &&& chosen_symbols(self.data@) is Some
        &&& self.table == chosen_symbols(self.data@).unwrap().0
        &&& self.syms@ == symbol_table(self.data@)
    }

    /// Selects from `raw` the records that enter the table.
    fn select(raw: &Vec<ElfSym>) -> (out: Vec<ParsedSym>)
        ensures
            out@ == kept_symbols(raw@),
    {
        let mut out: Vec<ParsedSym> = Vec::new();
        let mut i: usize = 0;
        proof {
            assert(raw@.take(0).filter(|s: ElfSym| is_kept(s)) =~= Seq::<ElfSym>::empty()) by {
                reveal(Seq::filter);
            }
            assert(kept_symbols(raw@.take(0)) =~= Seq::<ParsedSym>::empty());
        }
        while i < raw.len()
            invariant
                i <= raw.len(),
                out@ == kept_symbols(raw@.take(i as int)),
            decreases raw.len() - i,
        {
            let s = raw[i];
            proof {
                let keep = |s: ElfSym| is_kept(s);
                let head = raw@.take(i as int);
                assert(raw@.take(i + 1) =~= head.push(s));
                assert(head.push(s).filter(keep) =~= if is_kept(s) {
                    head.filter(keep).push(s)
                } else {
                    head.filter(keep)
                }) by {
                    reveal(Seq::filter);
                    assert(head.push(s).drop_last() =~= head);
                }
                if is_kept(s) {
                    assert(kept_symbols(head.push(s)) =~= kept_symbols(head).push(parsed(s)));
                }
            }
            if (s.kind == STT_FUNC || s.kind == STT_OBJECT) && s.section != SHN_UNDEF {
                out.push(ParsedSym { address: s.value, size: s.size, name: s.name });
            }
            i += 1;
        }
        proof {
            assert(raw@.take(raw.len() as int) =~= raw@);
        }
        out
    }

    /// Parses an ELF image. `None` is returned exactly where the image's
    /// symbol records cannot be read; the object returned stands for the
    /// bytes given.
    pub fn parse(data: Vec<u8>) -> (r: Option<Object>)
        ensures
            r is Some <==> chosen_symbols(data@) is Some,
            r matches Some(object) ==> object@ == data@,
    {
        let full = read_elf_symbols(data.as_slice(), SHT_SYMTAB)?;
        let (table, raw) = if full.len() > 0 {
            (SHT_SYMTAB, full)
        } else {
            (SHT_DYNSYM, read_elf_symbols(data.as_slice(), SHT_DYNSYM)?)
        };
        let selected = Object::select(&raw);
        let syms = sort_by_address(&selected);
        Some(Object { data, table, syms })
    }

    /// The number of entries in the fallback symbol table.
    pub fn symbol_count(&self) -> (n: usize)
        ensures
            chosen_symbols(self@) is Some,
            n == symbol_table(self@).len(),
    {
        proof {
            use_type_invariant(self);
        }
        self.syms.len()
    }

    /// Returns a copy of the section called `name`, or `None` where the
    /// image has no readable section of that name.
    pub fn section(&self, name: &str) -> (r: Option<Vec<u8>>)
        ensures
            r.deep_view() == elf_section(self@, name@),
    {
        read_elf_section(self.data.as_slice(), name)
    }

    /// Looks `addr` up in the fallback symbol table and returns the name
    /// of the symbol that covers it.
    pub fn search_symtab(&self, addr: u64) -> (r: Option<Vec<u8>>)
        ensures
            chosen_symbols(self@) is Some,
            r.deep_view() == symtab_name(self@, addr),
    {
        proof {
            use_type_invariant(self);
            lemma_sorted_by_address(kept_symbols(chosen_symbols(self.data@).unwrap().1));
        }
        let i = search_preceding(&self.syms, addr)?;
        let sym = self.syms[i];
        if addr - sym.address <= sym.size {
            read_elf_string(self.data.as_slice(), self.table, sym.name)
        } else {
            None
        }
    }
}

} // verus!
