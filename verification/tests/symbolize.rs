use backtrace::backtrace::Frame;
use backtrace::symbolize::dladdr;
use backtrace::symbolize::gimli::coff;
use backtrace::symbolize::gimli::elf::Object;
use backtrace::symbolize::gimli::macho;
use backtrace::symbolize::gimli::symtab::{search_preceding, sort_by_address, ParsedSym};
use backtrace::symbolize::gimli::{
    clear_symbol_cache, is_debug_bundle, resolve, Cache, Format, Library, LibrarySegment, Mapping,
    Supplied, Symbol, CURRENT_EXECUTABLE, MAPPINGS_CACHE_SIZE,
};
use backtrace::symbolize::ResolveWhat;
use backtrace::types::BytesOrWideString;

fn u16le(out: &mut Vec<u8>, v: u16) {
    out.extend_from_slice(&v.to_le_bytes());
}

fn u32le(out: &mut Vec<u8>, v: u32) {
    out.extend_from_slice(&v.to_le_bytes());
}

fn u64le(out: &mut Vec<u8>, v: u64) {
    out.extend_from_slice(&v.to_le_bytes());
}

/// A symbol to place in a test image: name, type, section index, value
/// and size.
type Sym = (&'static str, u8, u16, u64, u64);

const FUNC: u8 = 2;
const OBJECT: u8 = 1;
const NOTYPE: u8 = 0;

/// Builds a little-endian 64-bit ELF image with one symbol table of the
/// given section type and the given extra sections.
fn elf(table_type: u32, symbols: &[Sym], extra: &[(&str, Vec<u8>)]) -> Vec<u8> {
    let mut strtab = vec![0u8];
    let mut symtab = vec![0u8; 24];
    for (name, kind, shndx, value, size) in symbols {
        let offset = strtab.len() as u32;
        strtab.extend_from_slice(name.as_bytes());
        strtab.push(0);
        u32le(&mut symtab, offset);
        symtab.push(*kind);
        symtab.push(0);
        u16le(&mut symtab, *shndx);
        u64le(&mut symtab, *value);
        u64le(&mut symtab, *size);
    }
    let mut names = vec![".symtab", ".strtab", ".shstrtab"];
    let mut bodies = vec![symtab, strtab, Vec::new()];
    let mut types = vec![table_type, 3, 3];
    for (name, body) in extra {
        names.push(name);
        bodies.push(body.clone());
        types.push(1);
    }
    let mut shstrtab = vec![0u8];
    let mut name_offsets = Vec::new();
    for name in &names {
        name_offsets.push(shstrtab.len() as u32);
        shstrtab.extend_from_slice(name.as_bytes());
        shstrtab.push(0);
    }
    bodies[2] = shstrtab;

    let mut image = vec![0u8; 64];
    let mut offsets = Vec::new();
    for body in &bodies {
        offsets.push(image.len() as u64);
        image.extend_from_slice(body);
    }
    let shoff = image.len() as u64;
    image.extend_from_slice(&[0u8; 64]);
    for i in 0..bodies.len() {
        u32le(&mut image, name_offsets[i]);
        u32le(&mut image, types[i]);
        u64le(&mut image, 0);
        u64le(&mut image, 0);
        u64le(&mut image, offsets[i]);
        u64le(&mut image, bodies[i].len() as u64);
        u32le(&mut image, if i == 0 { 2 } else { 0 });
        u32le(&mut image, 0);
        u64le(&mut image, 1);
        u64le(&mut image, if i == 0 { 24 } else { 0 });
    }

    let mut header = Vec::new();
    header.extend_from_slice(&[0x7f, b'E', b'L', b'F', 2, 1, 1, 0, 0, 0, 0, 0, 0, 0, 0, 0]);
    u16le(&mut header, 2);
    u16le(&mut header, 0x3e);
    u32le(&mut header, 1);
    u64le(&mut header, 0);
    u64le(&mut header, 0);
    u64le(&mut header, shoff);
    u32le(&mut header, 0);
    u16le(&mut header, 64);
    u16le(&mut header, 0);
    u16le(&mut header, 0);
    u16le(&mut header, 64);
    u16le(&mut header, (bodies.len() + 1) as u16);
    u16le(&mut header, 3);
    image[..64].copy_from_slice(&header);
    image
}

fn sample_symbols() -> Vec<Sym> {
    vec![
        ("late", FUNC, 1, 0x3000, 0x10),
        ("imported", FUNC, 0, 0x1800, 0x10),
        ("first", FUNC, 1, 0x1000, 0x100),
        ("section_mark", NOTYPE, 1, 0x1400, 0x10),
        ("table", OBJECT, 1, 0x2000, 0x40),
    ]
}

fn name(object: &Object, addr: u64) -> Option<String> {
    object.search_symtab(addr).map(|n| String::from_utf8(n).unwrap())
}

#[test]
fn symbol_table_keeps_defined_functions_and_objects_in_address_order() {
    let object = Object::parse(elf(2, &sample_symbols(), &[])).unwrap();
    assert_eq!(object.symbol_count(), 3);
    assert_eq!(name(&object, 0x0fff), None);
    assert_eq!(name(&object, 0x1000), Some("first".to_string()));
    assert_eq!(name(&object, 0x10ff), Some("first".to_string()));
    assert_eq!(name(&object, 0x1100), Some("first".to_string()));
    assert_eq!(name(&object, 0x1101), None);
    assert_eq!(name(&object, 0x1400), None);
    assert_eq!(name(&object, 0x1800), None);
    assert_eq!(name(&object, 0x2000), Some("table".to_string()));
    assert_eq!(name(&object, 0x2040), Some("table".to_string()));
    assert_eq!(name(&object, 0x2041), None);
    assert_eq!(name(&object, 0x3005), Some("late".to_string()));
    assert_eq!(name(&object, u64::MAX), None);
}

#[test]
fn symbol_extent_reaching_the_end_of_the_address_space_does_not_overflow() {
    let symbols: Vec<Sym> = vec![("top", FUNC, 1, u64::MAX - 1, 0x10)];
    let object = Object::parse(elf(2, &symbols, &[])).unwrap();
    assert_eq!(name(&object, u64::MAX), Some("top".to_string()));
    assert_eq!(name(&object, u64::MAX - 2), None);
}

#[test]
fn symbols_of_equal_address_keep_file_order_and_the_last_is_found() {
    let symbols: Vec<Sym> = vec![
        ("alias_a", FUNC, 1, 0x1000, 0x10),
        ("other", FUNC, 1, 0x500, 0x10),
        ("alias_b", FUNC, 1, 0x1000, 0x20),
    ];
    let object = Object::parse(elf(2, &symbols, &[])).unwrap();
    assert_eq!(name(&object, 0x1008), Some("alias_b".to_string()));
    assert_eq!(name(&object, 0x1018), Some("alias_b".to_string()));
}

#[test]
fn dynamic_table_is_used_where_the_full_table_is_absent() {
    let object = Object::parse(elf(11, &sample_symbols(), &[])).unwrap();
    assert_eq!(object.symbol_count(), 3);
    assert_eq!(name(&object, 0x1010), Some("first".to_string()));
}

#[test]
fn image_without_symbols_parses_to_an_empty_table() {
    let object = Object::parse(elf(2, &[], &[])).unwrap();
    assert_eq!(object.symbol_count(), 0);
    assert_eq!(name(&object, 0x1000), None);
}

#[test]
fn malformed_images_are_no_objects() {
    assert!(Object::parse(Vec::new()).is_none());
    assert!(Object::parse(b"not an object file at all".to_vec()).is_none());
    let good = elf(2, &sample_symbols(), &[]);
    for len in [1, 4, 16, 63, 64, 100, good.len() - 1] {
        assert!(Object::parse(good[..len].to_vec()).is_none(), "length {}", len);
    }
    let mut big_endian = good.clone();
    big_endian[5] = 2;
    assert!(Object::parse(big_endian).is_none());
    let mut narrow = good.clone();
    narrow[4] = 1;
    assert!(Object::parse(narrow).is_none());
    let mut far = good.clone();
    far[40..48].copy_from_slice(&u64::MAX.to_le_bytes());
    assert!(Object::parse(far).is_none());
}

#[test]
fn section_is_found_by_name() {
    let object = Object::parse(elf(2, &sample_symbols(), &[(".debug_str", b"hello\0".to_vec())])).unwrap();
    assert_eq!(object.section(".debug_str"), Some(b"hello\0".to_vec()));
    assert_eq!(object.section(".debug_info"), None);
    assert_eq!(object.section(".shstrtab").unwrap()[0], 0);
}

#[test]
fn sorting_is_stable_and_keeps_every_entry() {
    let sym = |address: u64, name: u32| ParsedSym { address, size: 0, name };
    let table = vec![sym(5, 0), sym(1, 1), sym(5, 2), sym(3, 3), sym(1, 4), sym(0, 5), sym(5, 6)];
    let sorted = sort_by_address(&table);
    let order: Vec<(u64, u32)> = sorted.iter().map(|s| (s.address, s.name)).collect();
    assert_eq!(order, vec![(0, 5), (1, 1), (1, 4), (3, 3), (5, 0), (5, 2), (5, 6)]);
    assert_eq!(sort_by_address(&Vec::new()), Vec::new());
    assert_eq!(sort_by_address(&vec![sym(9, 9)]), vec![sym(9, 9)]);
}

#[test]
fn search_finds_the_last_entry_at_or_below_the_address() {
    let sym = |address: u64| ParsedSym { address, size: 0, name: 0 };
    let table = vec![sym(10), sym(20), sym(20), sym(30)];
    assert_eq!(search_preceding(&table, 9), None);
    assert_eq!(search_preceding(&table, 10), Some(0));
    assert_eq!(search_preceding(&table, 19), Some(0));
    assert_eq!(search_preceding(&table, 20), Some(2));
    assert_eq!(search_preceding(&table, 29), Some(2));
    assert_eq!(search_preceding(&table, 30), Some(3));
    assert_eq!(search_preceding(&table, u64::MAX), Some(3));
    assert_eq!(search_preceding(&Vec::new(), 5), None);
}

fn uleb(out: &mut Vec<u8>, mut v: u64) {
    loop {
        let byte = (v & 0x7f) as u8;
        v >>= 7;
        if v == 0 {
            out.push(byte);
            return;
        }
        out.push(byte | 0x80);
    }
}

/// Debug sections describing one unit `t.c`, compiled in `/src`, with
/// the function `f` at `0x1000..0x1100`, whose code comes from line 42.
fn debug_sections() -> Vec<(&'static str, Vec<u8>)> {
    let abbrev: Vec<u8> = vec![
        1, 0x11, 1, 0x03, 0x08, 0x1b, 0x08, 0x10, 0x17, 0x11, 0x01, 0x12, 0x07, 0, 0,
        2, 0x2e, 0, 0x03, 0x08, 0x11, 0x01, 0x12, 0x07, 0, 0,
        0,
    ];

    let mut unit = Vec::new();
    u16le(&mut unit, 4);
    u32le(&mut unit, 0);
    unit.push(8);
    unit.push(1);
    unit.extend_from_slice(b"t.c\0");
    unit.extend_from_slice(b"/src\0");
    u32le(&mut unit, 0);
    u64le(&mut unit, 0x1000);
    u64le(&mut unit, 0x100);
    unit.push(2);
    unit.extend_from_slice(b"f\0");
    u64le(&mut unit, 0x1000);
    u64le(&mut unit, 0x100);
    unit.push(0);
    let mut info = Vec::new();
    u32le(&mut info, unit.len() as u32);
    info.extend_from_slice(&unit);

    let mut header = Vec::new();
    header.extend_from_slice(&[1, 1, 1, 0xfb, 14, 13]);
    header.extend_from_slice(&[0, 1, 1, 1, 1, 0, 0, 0, 1, 0, 0, 1]);
    header.push(0);
    header.extend_from_slice(b"t.c\0");
    header.extend_from_slice(&[0, 0, 0]);
    header.push(0);
    let mut program = Vec::new();
    program.extend_from_slice(&[0, 9, 2]);
    u64le(&mut program, 0x1000);
    program.push(3);
    program.push(41);
    program.push(1);
    program.push(2);
    uleb(&mut program, 0x100);
    program.extend_from_slice(&[0, 1, 1]);
    let mut body = Vec::new();
    u16le(&mut body, 4);
    u32le(&mut body, header.len() as u32);
    body.extend_from_slice(&header);
    body.extend_from_slice(&program);
    let mut line = Vec::new();
    u32le(&mut line, body.len() as u32);
    line.extend_from_slice(&body);

    vec![(".debug_abbrev", abbrev), (".debug_info", info), (".debug_line", line)]
}

#[test]
fn debug_information_names_function_file_and_line() {
    let mapping = Mapping::new(Format::Elf, elf(2, &[], &debug_sections())).unwrap();
    let frames = mapping.frames(0x1010);
    assert_eq!(frames.len(), 1);
    assert_eq!(frames[0].name, Some(b"f".to_vec()));
    let location = frames[0].location.as_ref().unwrap();
    assert_eq!(location.file, Some(b"/src/t.c".to_vec()));
    assert_eq!(location.line, Some(42));
    assert_eq!(mapping.frames(0x0fff).len(), 0);
    assert_eq!(mapping.frames(0x1100).len(), 0);
}

#[test]
fn image_without_debug_sections_loads_and_reports_no_frame() {
    let mapping = Mapping::new(Format::Elf, elf(2, &[], &[])).unwrap();
    assert_eq!(mapping.frames(0x1010).len(), 0);
}

#[test]
fn truncated_debug_information_is_rejected_or_reports_nothing() {
    let mut sections = debug_sections();
    sections[1].1.truncate(6);
    match Mapping::new(Format::Elf, elf(2, &[], &sections)) {
        Some(mapping) => assert_eq!(mapping.frames(0x1010).len(), 0),
        None => {}
    }
}

#[test]
fn mapping_reads_frames_and_symbol_table_of_one_image() {
    let mapping = Mapping::new(Format::Elf, elf(2, &sample_symbols(), &debug_sections())).unwrap();
    let frames = mapping.frames(0x1010);
    assert_eq!(frames.len(), 1);
    assert_eq!(frames[0].name, Some(b"f".to_vec()));
    assert_eq!(mapping.frames(0x2000).len(), 0);
    assert_eq!(mapping.search_symtab(0x2000), Some(b"table".to_vec()));
    assert!(Mapping::new(Format::Elf, b"garbage".to_vec()).is_none());
    assert!(Mapping::new(Format::MachO, elf(2, &sample_symbols(), &[])).is_none());
    assert!(Mapping::new(Format::Pe, elf(2, &sample_symbols(), &[])).is_none());
}

fn name16(name: &str) -> [u8; 16] {
    let mut out = [0u8; 16];
    out[..name.len()].copy_from_slice(name.as_bytes());
    out
}

/// A symbol to place in a Mach-O test image: name, type byte and value.
type MachSymbol = (&'static str, u8, u64);

const N_SECT: u8 = 0x0e;
const N_UNDF: u8 = 0x00;

/// Builds a little-endian 64-bit Mach-O image with the given identifier,
/// symbols and sections of a `__DWARF` segment.
fn macho_image(uuid: Option<[u8; 16]>, symbols: &[MachSymbol], dwarf: &[(&str, Vec<u8>)]) -> Vec<u8> {
    let mut strings = vec![0u8];
    let mut nlist = Vec::new();
    for (name, kind, value) in symbols {
        let offset = if name.is_empty() { 0 } else { strings.len() as u32 };
        if !name.is_empty() {
            strings.extend_from_slice(name.as_bytes());
            strings.push(0);
        }
        u32le(&mut nlist, offset);
        nlist.push(*kind);
        nlist.push(1);
        u16le(&mut nlist, 0);
        u64le(&mut nlist, *value);
    }
    let text_size = 72 + 80;
    let dwarf_size = 72 + 80 * dwarf.len();
    let commands_size = uuid.map_or(0, |_| 24) + text_size + dwarf_size + 24;
    let mut offset = 32 + commands_size;
    let mut bodies = Vec::new();
    let mut section_offsets = Vec::new();
    for (_, body) in dwarf {
        section_offsets.push(offset as u32);
        offset += body.len();
        bodies.extend_from_slice(body);
    }
    let symoff = offset as u32;
    let stroff = symoff + nlist.len() as u32;

    let mut image = Vec::new();
    u32le(&mut image, 0xfeedfacf);
    u32le(&mut image, 0x0100_0007);
    u32le(&mut image, 3);
    u32le(&mut image, 2);
    u32le(&mut image, if uuid.is_some() { 4 } else { 3 });
    u32le(&mut image, commands_size as u32);
    u32le(&mut image, 0);
    u32le(&mut image, 0);
    if let Some(uuid) = uuid {
        u32le(&mut image, 0x1b);
        u32le(&mut image, 24);
        image.extend_from_slice(&uuid);
    }
    // A code segment whose one section shares its name with a debug
    // section, to show that only the debug segment is searched.
    u32le(&mut image, 0x19);
    u32le(&mut image, text_size as u32);
    image.extend_from_slice(&name16("__TEXT"));
    for _ in 0..4 {
        u64le(&mut image, 0);
    }
    u32le(&mut image, 7);
    u32le(&mut image, 5);
    u32le(&mut image, 1);
    u32le(&mut image, 0);
    image.extend_from_slice(&name16("__debug_str"));
    image.extend_from_slice(&name16("__TEXT"));
    u64le(&mut image, 0);
    u64le(&mut image, 4);
    u32le(&mut image, 0);
    for _ in 0..7 {
        u32le(&mut image, 0);
    }
    u32le(&mut image, 0x19);
    u32le(&mut image, dwarf_size as u32);
    image.extend_from_slice(&name16("__DWARF"));
    for _ in 0..4 {
        u64le(&mut image, 0);
    }
    u32le(&mut image, 7);
    u32le(&mut image, 3);
    u32le(&mut image, dwarf.len() as u32);
    u32le(&mut image, 0);
    for (i, (name, body)) in dwarf.iter().enumerate() {
        image.extend_from_slice(&name16(name));
        image.extend_from_slice(&name16("__DWARF"));
        u64le(&mut image, 0);
        u64le(&mut image, body.len() as u64);
        u32le(&mut image, section_offsets[i]);
        for _ in 0..7 {
            u32le(&mut image, 0);
        }
    }
    u32le(&mut image, 0x2);
    u32le(&mut image, 24);
    u32le(&mut image, symoff);
    u32le(&mut image, symbols.len() as u32);
    u32le(&mut image, stroff);
    u32le(&mut image, strings.len() as u32);
    assert_eq!(image.len(), 32 + commands_size);
    image.extend_from_slice(&bodies);
    image.extend_from_slice(&nlist);
    image.extend_from_slice(&strings);
    image
}

fn macho_symbols() -> Vec<MachSymbol> {
    vec![
        ("_late", N_SECT, 0x3000),
        ("_imported", N_UNDF, 0x1800),
        ("", N_SECT, 0x2800),
        ("_first", N_SECT, 0x1000),
    ]
}

fn macho_debug_sections() -> Vec<(&'static str, Vec<u8>)> {
    debug_sections()
        .into_iter()
        .map(|(name, body)| {
            let name = match name {
                ".debug_abbrev" => "__debug_abbrev",
                ".debug_info" => "__debug_info",
                _ => "__debug_line",
            };
            (name, body)
        })
        .collect()
}

#[test]
fn macho_table_keeps_named_defined_symbols_and_finds_the_closest_below() {
    let object = macho::Object::parse(macho_image(Some([7; 16]), &macho_symbols(), &[])).unwrap();
    assert_eq!(object.symbol_count(), 2);
    assert_eq!(object.search_symtab(0x0fff), None);
    assert_eq!(object.search_symtab(0x1000), Some(b"_first".to_vec()));
    assert_eq!(object.search_symtab(0x2fff), Some(b"_first".to_vec()));
    assert_eq!(object.search_symtab(0x3000), Some(b"_late".to_vec()));
    assert_eq!(object.search_symtab(u64::MAX), Some(b"_late".to_vec()));
}

#[test]
fn macho_debug_sections_answer_to_dotted_names() {
    let dwarf = [("__debug_str", b"abc\0".to_vec()), (".literal", b"xyz".to_vec())];
    let object = macho::Object::parse(macho_image(None, &[], &dwarf)).unwrap();
    assert_eq!(object.section(".debug_str"), Some(b"abc\0".to_vec()));
    assert_eq!(object.section("__debug_str"), Some(b"abc\0".to_vec()));
    assert_eq!(object.section(".literal"), Some(b"xyz".to_vec()));
    assert_eq!(object.section("debug_str"), None);
    assert_eq!(object.section(".debug_info"), None);
    assert_eq!(object.section("__TEXT"), None);
}

#[test]
fn macho_identifier_is_read_from_the_image() {
    assert_eq!(macho::uuid(&macho_image(Some([9; 16]), &[], &[])), Some(vec![9u8; 16]));
    assert_eq!(macho::uuid(&macho_image(None, &[], &[])), None);
    assert_eq!(macho::uuid(&[]), None);
    assert_eq!(macho::uuid(&elf(2, &[], &[])), None);
}

#[test]
fn macho_malformed_images_are_no_objects() {
    assert!(macho::Object::parse(Vec::new()).is_none());
    let good = macho_image(Some([7; 16]), &macho_symbols(), &[]);
    assert!(macho::Object::parse(good[..31].to_vec()).is_none());
    assert!(macho::Object::parse(good[..good.len() - 40].to_vec()).is_none());
    let mut swapped = good.clone();
    swapped[..4].copy_from_slice(&0xfeedfacfu32.to_be_bytes());
    assert!(macho::Object::parse(swapped).is_none());
}

#[test]
fn bundle_with_the_same_identifier_provides_the_debug_information() {
    let image = macho_image(Some([1; 16]), &macho_symbols(), &[]);
    let stranger = macho_image(Some([2; 16]), &[("_stranger", N_SECT, 0x1000)], &macho_debug_sections());
    let own = macho_image(Some([1; 16]), &[("_from_bundle", N_SECT, 0x1000)], &macho_debug_sections());

    let supplied = Supplied { image: image.clone(), bundles: vec![vec![stranger.clone(), own.clone()]] };
    let mapping = Mapping::from_supplied(Format::MachO, supplied).unwrap();
    assert_eq!(mapping.frames(0x1010).len(), 1);
    assert_eq!(mapping.search_symtab(0x1010), Some(b"_from_bundle".to_vec()));

    let supplied = Supplied { image: image.clone(), bundles: vec![vec![stranger.clone()], vec![own]] };
    let mapping = Mapping::from_supplied(Format::MachO, supplied).unwrap();
    assert_eq!(mapping.search_symtab(0x1010), Some(b"_from_bundle".to_vec()));

    let supplied = Supplied { image: image.clone(), bundles: vec![vec![stranger]] };
    let mapping = Mapping::from_supplied(Format::MachO, supplied).unwrap();
    assert_eq!(mapping.frames(0x1010).len(), 0);
    assert_eq!(mapping.search_symtab(0x1010), Some(b"_first".to_vec()));
}

#[test]
fn unreadable_file_ends_the_search_in_its_bundle_only() {
    let image = macho_image(Some([1; 16]), &macho_symbols(), &[]);
    let own = macho_image(Some([1; 16]), &[("_from_bundle", N_SECT, 0x1000)], &macho_debug_sections());
    let supplied = Supplied { image: image.clone(), bundles: vec![vec![Vec::new(), own.clone()]] };
    let mapping = Mapping::from_supplied(Format::MachO, supplied).unwrap();
    assert_eq!(mapping.search_symtab(0x1010), Some(b"_first".to_vec()));

    let supplied = Supplied { image, bundles: vec![vec![Vec::new()], vec![own]] };
    let mapping = Mapping::from_supplied(Format::MachO, supplied).unwrap();
    assert_eq!(mapping.search_symtab(0x1010), Some(b"_from_bundle".to_vec()));
}

#[test]
fn image_without_identifier_has_no_context_on_macho() {
    let image = macho_image(None, &macho_symbols(), &[]);
    assert!(Mapping::from_supplied(Format::MachO, Supplied::image(image.clone())).is_none());
    assert!(Mapping::new(Format::MachO, image).is_some());
}

// The debug information of the running test is emptied; capturing a
// backtrace must still work, from the image's own symbol table.
#[test]
fn backtrace_no_dsym() {
    let image = macho_image(Some([1; 16]), &macho_symbols(), &[]);
    let library = Library {
        name: b"/tmp/test".to_vec(),
        segments: vec![LibrarySegment { len: 0x4000, stated_virtual_memory_address: 0 }],
        bias: 0x10000,
    };
    let mut cache = Cache::new(Format::MachO, vec![library]);
    let frames = vec![Frame::new(0x11010, None, 0x11000, None), Frame::new(0x13004, None, 0x13000, None)];
    let mut symbols = Vec::new();
    for frame in &frames {
        let supplied = Supplied { image: image.clone(), bundles: vec![vec![Vec::new()]] };
        symbols.push(resolve(&mut cache, ResolveWhat::Frame(*frame), Some(supplied), None));
    }
    let backtrace = backtrace::capture::Backtrace::new(&frames, &symbols);
    let frames = backtrace.frames();
    assert_eq!(frames.len(), 2);
    assert_eq!(frames[0].symbols()[0].name(), Some(&b"_first".to_vec()));
    assert_eq!(frames[1].symbols()[0].name(), Some(&b"_late".to_vec()));
    assert_eq!(frames[0].symbols()[0].lineno(), None);
}

#[test]
fn debug_bundles_are_told_by_their_name() {
    assert!(is_debug_bundle(b"app.dSYM"));
    assert!(is_debug_bundle(b".dSYM"));
    assert!(!is_debug_bundle(b"app.dsym"));
    assert!(!is_debug_bundle(b"app.dSYM.zip"));
    assert!(!is_debug_bundle(b"dSYM"));
    assert!(!is_debug_bundle(b""));
}

/// A symbol to place in a PE test image: name, section number, type,
/// value and number of auxiliary slots.
type PeSymbol = (&'static str, u16, u16, u32, u8);

const FUNCTION: u16 = 0x20;

/// Builds a 64-bit PE image with the given image base, sections (name,
/// virtual address, contents) and COFF symbols.
fn pe_image(base: u64, sections: &[(&str, u32, Vec<u8>)], symbols: &[PeSymbol]) -> Vec<u8> {
    let mut strings: Vec<u8> = Vec::new();
    let mut place = |name: &str, strings: &mut Vec<u8>| -> u32 {
        let offset = 4 + strings.len() as u32;
        strings.extend_from_slice(name.as_bytes());
        strings.push(0);
        offset
    };
    let headers = 64 + 4 + 20 + 112 + 40 * sections.len();
    let mut offset = headers;
    let mut section_headers = Vec::new();
    let mut bodies = Vec::new();
    for (name, va, body) in sections {
        let mut field = [0u8; 8];
        if name.len() <= 8 {
            field[..name.len()].copy_from_slice(name.as_bytes());
        } else {
            let text = format!("/{}", place(name, &mut strings));
            field[..text.len()].copy_from_slice(text.as_bytes());
        }
        section_headers.extend_from_slice(&field);
        u32le(&mut section_headers, body.len() as u32);
        u32le(&mut section_headers, *va);
        u32le(&mut section_headers, body.len() as u32);
        u32le(&mut section_headers, offset as u32);
        u32le(&mut section_headers, 0);
        u32le(&mut section_headers, 0);
        u16le(&mut section_headers, 0);
        u16le(&mut section_headers, 0);
        u32le(&mut section_headers, 0x4000_0040);
        offset += body.len();
        bodies.extend_from_slice(body);
    }
    let mut table = Vec::new();
    let mut slots = 0u32;
    for (name, section, kind, value, aux) in symbols {
        let mut field = [0u8; 8];
        if name.len() <= 8 {
            field[..name.len()].copy_from_slice(name.as_bytes());
        } else {
            let at = place(name, &mut strings);
            field[4..].copy_from_slice(&at.to_le_bytes());
        }
        table.extend_from_slice(&field);
        u32le(&mut table, *value);
        u16le(&mut table, *section);
        u16le(&mut table, *kind);
        table.push(2);
        table.push(*aux);
        slots += 1;
        for _ in 0..*aux {
            // Auxiliary slots read as function symbols of section 1
            // when taken for symbols of their own.
            let mut slot = [0xffu8; 18];
            slot[12..14].copy_from_slice(&1u16.to_le_bytes());
            slot[14..16].copy_from_slice(&FUNCTION.to_le_bytes());
            slot[17] = 0;
            table.extend_from_slice(&slot);
            slots += 1;
        }
    }

    let mut image = vec![0u8; 64];
    image[0] = b'M';
    image[1] = b'Z';
    image[0x3c..0x40].copy_from_slice(&64u32.to_le_bytes());
    image.extend_from_slice(b"PE\0\0");
    u16le(&mut image, 0x8664);
    u16le(&mut image, sections.len() as u16);
    u32le(&mut image, 0);
    u32le(&mut image, if symbols.is_empty() { 0 } else { offset as u32 });
    u32le(&mut image, slots);
    u16le(&mut image, 112);
    u16le(&mut image, 0x22);
    let mut optional = vec![0u8; 112];
    optional[..2].copy_from_slice(&0x20bu16.to_le_bytes());
    optional[24..32].copy_from_slice(&base.to_le_bytes());
    image.extend_from_slice(&optional);
    image.extend_from_slice(&section_headers);
    assert_eq!(image.len(), headers);
    image.extend_from_slice(&bodies);
    if !symbols.is_empty() {
        image.extend_from_slice(&table);
        u32le(&mut image, 4 + strings.len() as u32);
        image.extend_from_slice(&strings);
    }
    image
}

fn pe_sections() -> Vec<(&'static str, u32, Vec<u8>)> {
    vec![(".text", 0x1000, vec![0x90; 16]), (".debug_str", 0x5000, b"hello\0".to_vec())]
}

fn pe_symbols() -> Vec<PeSymbol> {
    vec![
        ("later", 1, FUNCTION, 0x200, 1),
        ("imported", 0, FUNCTION, 0x80, 0),
        ("variable", 1, 0, 0x100, 0),
        ("a_function_with_a_long_name", 1, FUNCTION, 0x40, 0),
        ("other", 2, FUNCTION, 0x10, 0),
    ]
}

#[test]
fn pe_table_holds_function_symbols_at_their_loaded_addresses() {
    let base = 0x1_4000_0000u64;
    let object = coff::Object::parse(pe_image(base, &pe_sections(), &pe_symbols())).unwrap();
    assert_eq!(object.symbol_count(), 3);
    assert_eq!(object.search_symtab(base + 0x1000 + 0x3f), None);
    assert_eq!(object.search_symtab(base + 0x1000 + 0x40), Some(b"a_function_with_a_long_name".to_vec()));
    assert_eq!(object.search_symtab(base + 0x1000 + 0x1ff), Some(b"a_function_with_a_long_name".to_vec()));
    assert_eq!(object.search_symtab(base + 0x1000 + 0x200), Some(b"later".to_vec()));
    assert_eq!(object.search_symtab(base + 0x5000 + 0x10), Some(b"other".to_vec()));
    assert_eq!(object.search_symtab(u64::MAX), Some(b"other".to_vec()));
}

#[test]
fn pe_section_is_found_by_short_and_by_long_name() {
    let object = coff::Object::parse(pe_image(0x40_0000, &pe_sections(), &pe_symbols())).unwrap();
    assert_eq!(object.section(".text"), Some(vec![0x90; 16]));
    assert_eq!(object.section(".debug_str"), Some(b"hello\0".to_vec()));
    assert_eq!(object.section(".debug_info"), None);
}

#[test]
fn pe_symbol_in_a_section_that_does_not_exist_makes_the_image_no_object() {
    let symbols: Vec<PeSymbol> = vec![("lost", 3, FUNCTION, 0, 0)];
    assert!(coff::Object::parse(pe_image(0x40_0000, &pe_sections(), &symbols)).is_none());
    let symbols: Vec<PeSymbol> = vec![("absolute", 0xffff, FUNCTION, 0, 0)];
    assert!(coff::Object::parse(pe_image(0x40_0000, &pe_sections(), &symbols)).is_none());
    let symbols: Vec<PeSymbol> = vec![("lost_data", 3, 0, 0, 0)];
    assert!(coff::Object::parse(pe_image(0x40_0000, &pe_sections(), &symbols)).is_some());
}

#[test]
fn pe_address_beyond_the_machine_word_makes_the_image_no_object() {
    let symbols: Vec<PeSymbol> = vec![("high", 1, FUNCTION, 0x200, 0)];
    assert!(coff::Object::parse(pe_image(u64::MAX - 0x1100, &pe_sections(), &symbols)).is_none());
    assert!(coff::Object::parse(pe_image(u64::MAX - 0x1200, &pe_sections(), &symbols)).is_some());
}

#[test]
fn pe_malformed_images_are_no_objects() {
    assert!(coff::Object::parse(Vec::new()).is_none());
    let good = pe_image(0x40_0000, &pe_sections(), &pe_symbols());
    assert!(coff::Object::parse(good[..63].to_vec()).is_none());
    assert!(coff::Object::parse(good[..100].to_vec()).is_none());
    assert!(coff::Object::parse(good[..good.len() - 60].to_vec()).is_none());
    let mut no_magic = good.clone();
    no_magic[0] = b'N';
    assert!(coff::Object::parse(no_magic).is_none());
    assert!(coff::Object::parse(pe_image(0x40_0000, &pe_sections(), &[])).is_some());
}

#[test]
fn pe_image_resolves_through_the_cache_without_enumeration() {
    let base = 0x1_4000_0000u64;
    let mut sections = pe_sections();
    for (name, body) in debug_sections() {
        sections.push((name, 0x9000, body));
    }
    let image = pe_image(base, &sections, &pe_symbols());
    let mut cache = Cache::without_enumeration(Format::Pe);
    assert_eq!(cache.avma_to_svma(0x1234), Some((CURRENT_EXECUTABLE, 0x1234)));
    assert_eq!(cache.library_name(CURRENT_EXECUTABLE), None);

    let found = cache.resolve(0x1010, Some(Supplied::image(image.clone())), None);
    assert_eq!(found.len(), 1);
    assert_eq!(found[0].name(), Some(&b"f".to_vec()));
    assert_eq!(found[0].lineno(), Some(42));

    let address = (base + 0x1000 + 0x210) as usize;
    let found = cache.resolve(address, None, None);
    assert_eq!(found, vec![Symbol::Symtab { addr: address, name: b"later".to_vec() }]);
    assert_eq!(cache.keys(), vec![CURRENT_EXECUTABLE]);
}

fn library(name: &str, bias: isize, segments: &[(usize, usize)]) -> Library {
    Library {
        name: name.as_bytes().to_vec(),
        segments: segments
            .iter()
            .map(|(start, len)| LibrarySegment { len: *len, stated_virtual_memory_address: *start })
            .collect(),
        bias,
    }
}

fn libraries() -> Vec<Library> {
    vec![
        library("/bin/main", 0x40_0000, &[(0x1000, 0x1000), (0x3000, 0x800)]),
        library("/lib/one.so", 0x7000_0000, &[(0, 0x4000)]),
        library("/lib/two.so", 0x7100_0000, &[(0x1000, 0x3000)]),
        library("/lib/three.so", 0x7200_0000, &[(0x1000, 0x3000)]),
        library("/lib/four.so", 0x7300_0000, &[(0x1000, 0x3000)]),
        library("/lib/five.so", 0x7400_0000, &[(0x1000, 0x3000)]),
    ]
}

fn image_for(lib: usize) -> Vec<u8> {
    let names = ["in_main", "in_one", "in_two", "in_three", "in_four", "in_five"];
    let symbols: Vec<Sym> = vec![(names[lib], FUNC, 1, 0x1000, 0x2000)];
    elf(2, &symbols, &[])
}

#[test]
fn address_in_a_segment_translates_to_library_and_stated_address() {
    let cache = Cache::new(Format::Elf, libraries());
    assert_eq!(cache.avma_to_svma(0x40_1000), Some((0, 0x1000)));
    assert_eq!(cache.avma_to_svma(0x40_1fff), Some((0, 0x1fff)));
    assert_eq!(cache.avma_to_svma(0x40_2000), None);
    assert_eq!(cache.avma_to_svma(0x40_0fff), None);
    assert_eq!(cache.avma_to_svma(0x40_3400), Some((0, 0x3400)));
    assert_eq!(cache.avma_to_svma(0x40_3800), None);
    assert_eq!(cache.avma_to_svma(0x7000_0000), Some((1, 0)));
    assert_eq!(cache.avma_to_svma(0x7100_2abc), Some((2, 0x2abc)));
    assert_eq!(cache.avma_to_svma(0), None);
    assert_eq!(cache.avma_to_svma(usize::MAX), None);
    assert_eq!(cache.library_name(1), Some(&b"/lib/one.so".to_vec()));
    assert_eq!(cache.library_name(6), None);
}

#[test]
fn translation_handles_negative_bias_and_the_ends_of_the_address_space() {
    let libs = vec![
        library("low", -0x1000, &[(0x2000, 0x1000)]),
        library("top", 0, &[(usize::MAX - 0xff, 0x100)]),
        library("wrapped", isize::MIN, &[(0, 0x10)]),
    ];
    let cache = Cache::new(Format::Elf, libs);
    assert_eq!(cache.avma_to_svma(0x1000), Some((0, 0x2000)));
    assert_eq!(cache.avma_to_svma(0x1fff), Some((0, 0x2fff)));
    assert_eq!(cache.avma_to_svma(0x2000), None);
    assert_eq!(cache.avma_to_svma(usize::MAX), Some((1, usize::MAX)));
    assert_eq!(cache.avma_to_svma(usize::MAX - 0x100), None);
    assert_eq!(cache.avma_to_svma(5), None);
}

#[test]
fn first_of_overlapping_libraries_wins() {
    let libs = vec![library("a", 0x1000, &[(0, 0x100)]), library("b", 0x1080, &[(0, 0x100)])];
    let cache = Cache::new(Format::Elf, libs);
    assert_eq!(cache.avma_to_svma(0x1090), Some((0, 0x90)));
    assert_eq!(cache.avma_to_svma(0x1100), Some((1, 0x80)));
    assert!(libraries()[0].contains(0x40_1000));
    assert!(!libraries()[0].contains(0x40_2000));
    assert!(libraries()[0].segments[1].contains(0x40_0000, 0x40_3000));
}

#[test]
fn cache_keeps_the_most_recently_used_libraries_latest_first() {
    let mut cache = Cache::new(Format::Elf, libraries());
    assert_eq!(MAPPINGS_CACHE_SIZE, 4);
    for lib in 0..6 {
        assert!(cache.mapping_for_lib(lib, Some(Supplied::image(image_for(lib)))));
        assert!(cache.len() <= MAPPINGS_CACHE_SIZE);
    }
    assert_eq!(cache.keys(), vec![5, 4, 3, 2]);
    assert!(cache.contains(3));
    assert!(!cache.contains(1));

    assert!(cache.mapping_for_lib(3, None));
    assert_eq!(cache.keys(), vec![3, 5, 4, 2]);
    assert!(cache.mapping_for_lib(3, None));
    assert_eq!(cache.keys(), vec![3, 5, 4, 2]);
    assert!(cache.mapping_for_lib(2, None));
    assert_eq!(cache.keys(), vec![2, 3, 5, 4]);

    assert!(!cache.mapping_for_lib(0, None));
    assert!(!cache.mapping_for_lib(0, Some(Supplied::image(b"no object".to_vec()))));
    assert_eq!(cache.keys(), vec![2, 3, 5, 4]);

    assert!(cache.mapping_for_lib(0, Some(Supplied::image(image_for(0)))));
    assert_eq!(cache.keys(), vec![0, 2, 3, 5]);

    cache.clear(libraries());
    assert_eq!(cache.len(), 0);
    assert_eq!(cache.keys(), Vec::<usize>::new());
    assert_eq!(cache.library_count(), 6);
}

#[test]
fn clearing_takes_the_libraries_that_are_loaded_now() {
    let mut cache = Cache::new(Format::Elf, libraries());
    let address = 0x7100_1010;
    let found = cache.resolve(address, Some(Supplied::image(image_for(2))), None);
    assert_eq!(found, vec![Symbol::Symtab { addr: 0x1010, name: b"in_two".to_vec() }]);

    // The library is unloaded and another one loaded in its place.
    let now = vec![library("/lib/new.so", 0x7100_0800, &[(0, 0x4000)])];
    clear_symbol_cache(&mut cache, now);
    assert_eq!(cache.library_count(), 1);
    assert_eq!(cache.library_name(0), Some(&b"/lib/new.so".to_vec()));
    assert_eq!(cache.avma_to_svma(address), Some((0, 0x810)));
    assert_eq!(cache.avma_to_svma(0x40_1000), None);
    let symbols: Vec<Sym> = vec![("in_new", FUNC, 1, 0x800, 0x100)];
    let found = cache.resolve(address, Some(Supplied::image(elf(2, &symbols, &[]))), None);
    assert_eq!(found, vec![Symbol::Symtab { addr: 0x810, name: b"in_new".to_vec() }]);
    assert_eq!(cache.keys(), vec![0]);
}

fn name_of(symbol: &Symbol) -> String {
    String::from_utf8(symbol.name().unwrap().clone()).unwrap()
}

#[test]
fn resolving_again_gives_the_same_symbols_and_keeps_the_cache_bounded() {
    let mut cache = Cache::new(Format::Elf, libraries());
    let address = 0x7100_1010;
    let first = resolve(&mut cache, ResolveWhat::Address(address), Some(Supplied::image(image_for(2))), None);
    assert_eq!(first, vec![Symbol::Symtab { addr: 0x1010, name: b"in_two".to_vec() }]);
    for _ in 0..10 {
        let again = resolve(&mut cache, ResolveWhat::Address(address), Some(Supplied::image(image_for(2))), None);
        assert_eq!(again, first);
        assert_eq!(cache.keys(), vec![2]);
    }
    // On a hit what is handed over is not looked at.
    let again = resolve(&mut cache, ResolveWhat::Address(address), Some(Supplied::image(image_for(5))), None);
    assert_eq!(again, first);
    let again = resolve(&mut cache, ResolveWhat::Address(address), None, None);
    assert_eq!(again, first);
}

#[test]
fn clearing_the_cache_changes_no_result() {
    let mut cache = Cache::new(Format::Elf, libraries());
    let addresses = [0x40_1010usize, 0x7000_1010, 0x7100_1010, 0x40_1fff];
    let lib_of = [0usize, 1, 2, 0];
    let mut before = Vec::new();
    for (address, lib) in addresses.iter().zip(lib_of) {
        before.push(cache.resolve(*address, Some(Supplied::image(image_for(lib))), None));
    }
    assert_eq!(name_of(&before[0][0]), "in_main");
    clear_symbol_cache(&mut cache, libraries());
    assert_eq!(cache.len(), 0);
    for ((address, lib), expected) in addresses.iter().zip(lib_of).zip(&before) {
        assert_eq!(&cache.resolve(*address, Some(Supplied::image(image_for(lib))), None), expected);
    }
}

#[test]
fn debug_information_wins_over_the_symbol_table() {
    let symbols: Vec<Sym> = vec![("from_table", FUNC, 1, 0x1000, 0x2000)];
    let image = elf(2, &symbols, &debug_sections());
    let mut cache = Cache::new(Format::Elf, libraries());
    let found = cache.resolve(0x40_1010, Some(Supplied::image(image)), None);
    assert_eq!(found.len(), 1);
    match &found[0] {
        Symbol::Frame { addr, location, name } => {
            assert_eq!(*addr, 0x1010);
            assert_eq!(name, &Some(b"f".to_vec()));
            assert_eq!(location.as_ref().unwrap().line, Some(42));
        }
        other => panic!("{:?}", other),
    }
    assert_eq!(found[0].addr(), Some(0x1010));
    assert_eq!(found[0].filename(), Some(&b"/src/t.c".to_vec()));
    assert!(matches!(found[0].filename_raw(), Some(BytesOrWideString::Bytes(b"/src/t.c"))));
    assert_eq!(found[0].lineno(), Some(42));

    // Beyond the function the debug information is silent and the
    // symbol table answers.
    let found = cache.resolve(0x40_1800, None, None);
    assert_eq!(found, vec![Symbol::Symtab { addr: 0x1800, name: b"from_table".to_vec() }]);
    assert_eq!(found[0].addr(), None);
    assert_eq!(found[0].filename(), None);
    assert!(found[0].filename_raw().is_none());
    assert_eq!(found[0].lineno(), None);
}

#[test]
fn corrupted_debug_information_falls_back_to_the_symbol_table() {
    let symbols: Vec<Sym> = vec![("from_table", FUNC, 1, 0x1000, 0x2000)];
    let mut sections = debug_sections();
    for byte in sections[2].1.iter_mut().skip(10) {
        *byte = 0xff;
    }
    let image = elf(2, &symbols, &sections);
    let mut cache = Cache::new(Format::Elf, libraries());
    let found = cache.resolve(0x40_1010, Some(Supplied::image(image)), None);
    assert_eq!(found, vec![Symbol::Symtab { addr: 0x1010, name: b"from_table".to_vec() }]);
}

#[test]
fn loader_answers_only_where_the_images_are_silent() {
    let loader = || dladdr::Symbol::new(Some(b"exported".to_vec()), 0x7000_0000, Some(b"/lib/one.so".to_vec()));
    let mut cache = Cache::new(Format::Elf, libraries());

    let found = cache.resolve(0x7000_1010, Some(Supplied::image(image_for(1))), Some(loader()));
    assert_eq!(found, vec![Symbol::Symtab { addr: 0x1010, name: b"in_one".to_vec() }]);

    let found = cache.resolve(0x7000_0010, None, Some(loader()));
    assert_eq!(found, vec![Symbol::Dladdr(loader())]);
    assert_eq!(found[0].name(), Some(&b"exported".to_vec()));
    assert_eq!(found[0].addr(), Some(0x7000_0000));
    assert_eq!(found[0].filename(), None);
    assert_eq!(found[0].lineno(), None);

    let found = cache.resolve(0x7100_1010, None, Some(loader()));
    assert_eq!(found, vec![Symbol::Dladdr(loader())]);
    let found = cache.resolve(0x7100_1010, Some(Supplied::image(b"broken".to_vec())), Some(loader()));
    assert_eq!(found, vec![Symbol::Dladdr(loader())]);
    let found = cache.resolve(0x10, None, Some(loader()));
    assert_eq!(found, vec![Symbol::Dladdr(loader())]);
    assert_eq!(cache.keys(), vec![1]);
}

#[test]
fn highest_address_is_looked_up_without_a_search_for_frames() {
    let symbols: Vec<Sym> = vec![("top", FUNC, 1, u64::MAX - 0x10, 0x10)];
    let mapping = Mapping::new(Format::Elf, elf(2, &symbols, &debug_sections())).unwrap();
    assert_eq!(mapping.frames(u64::MAX).len(), 0);
    assert_eq!(mapping.frames(u64::MAX - 1).len(), 0);
    assert_eq!(mapping.search_symtab(u64::MAX), Some(b"top".to_vec()));
}

/// Debug sections whose one function starts at the highest address and
/// states a size, so that its end lies beyond the address space.
fn overflowing_debug_sections() -> Vec<(&'static str, Vec<u8>)> {
    let mut sections = debug_sections();
    let info = &mut sections[1].1;
    let at = info.len() - 1 - 16;
    info[at..at + 8].copy_from_slice(&u64::MAX.to_le_bytes());
    let unit_low = 4 + 2 + 4 + 1 + 1 + 4 + 5 + 4;
    info[unit_low..unit_low + 8].copy_from_slice(&u64::MAX.to_le_bytes());
    sections
}

#[test]
fn function_reaching_beyond_the_address_space_does_no_harm() {
    let symbols: Vec<Sym> = vec![("from_table", FUNC, 1, 0x1000, 0x2000)];
    let image = elf(2, &symbols, &overflowing_debug_sections());
    match Mapping::new(Format::Elf, image.clone()) {
        Some(mapping) => {
            // The function's range is dropped; what is left is the line.
            for frame in mapping.frames(0x1010) {
                assert_eq!(frame.name, None);
            }
            assert_eq!(mapping.frames(u64::MAX - 1).len(), 0);
            assert_eq!(mapping.frames(0).len(), 0);
        }
        None => {}
    }
    let mut cache = Cache::new(Format::Elf, libraries());
    let found = cache.resolve(0x40_1010, Some(Supplied::image(image)), None);
    assert_eq!(found.len(), 1);
    assert_eq!(found[0].lineno().is_some(), found[0].name().is_none());
}

#[test]
fn address_unknown_to_everyone_resolves_to_nothing() {
    let mut cache = Cache::new(Format::Elf, libraries());
    assert_eq!(cache.resolve(0x10, None, None), Vec::new());
    assert_eq!(cache.resolve(0x10, Some(Supplied::image(image_for(0))), None), Vec::new());
    assert_eq!(cache.resolve(0x7000_0010, Some(Supplied::image(image_for(1))), None), Vec::new());
    assert_eq!(cache.resolve(0x7100_1010, None, None), Vec::new());
    assert_eq!(cache.resolve_mapped(0x10, None), Vec::new());
    assert_eq!(cache.keys(), vec![1]);
    assert_eq!(dladdr::resolve(None), Vec::new());
    assert_eq!(dladdr::resolve(Some(dladdr::Symbol::new(None, 1, None))).len(), 1);
}

#[test]
fn frame_is_resolved_at_its_instruction_pointer() {
    let frame = Frame::new(0x7000_1010, Some(0x7fff_0000), 0x7000_1000, None);
    assert_eq!(ResolveWhat::Frame(frame).address_or_ip(), 0x7000_1010);
    assert_eq!(ResolveWhat::Address(7).address_or_ip(), 7);
    let mut cache = Cache::new(Format::Elf, libraries());
    let found = resolve(&mut cache, ResolveWhat::Frame(frame), Some(Supplied::image(image_for(1))), None);
    assert_eq!(name_of(&found[0]), "in_one");
}
