use backtrace::dbghelp::{
    module_directory, mutex_name, set_optional_options, symbol_options, utf16_char, SearchPath,
};
use backtrace::symbolize::dbghelp::{
    do_resolve, reencode, terminated_len, LineInfo, SymbolInfo, NAME_BUFFER,
};
use backtrace::symbolize::libbacktrace;
use backtrace::types::{decode_utf16, BytesOrWideString};

fn wide(s: &str) -> Vec<u16> {
    s.encode_utf16().collect()
}

#[test]
fn lock_name_ends_in_the_process_number_in_hexadecimal() {
    assert_eq!(mutex_name(0x1234ABCD), b"Local\\RustBacktraceMutex1234ABCD\0".to_vec());
    assert_eq!(mutex_name(0), b"Local\\RustBacktraceMutex00000000\0".to_vec());
    assert_eq!(mutex_name(0xF), b"Local\\RustBacktraceMutex0000000F\0".to_vec());
    assert_eq!(mutex_name(u32::MAX), b"Local\\RustBacktraceMutexFFFFFFFF\0".to_vec());
    assert_eq!(mutex_name(0x90).len(), 33);
}

#[test]
fn deferred_loading_is_added_to_the_options() {
    assert_eq!(symbol_options(0), 0x4);
    assert_eq!(symbol_options(0x13), 0x17);
    assert_eq!(symbol_options(0x4), 0x4);
    assert_eq!(utf16_char(';'), 0x3b);
    assert_eq!(utf16_char('\\'), 0x5c);
    assert_eq!(utf16_char('\u{ffff}'), 0xffff);
}

#[test]
fn directory_of_a_module_ends_before_the_last_separator() {
    assert_eq!(module_directory(&wide("C:\\path\\to\\module.dll")), Some(&wide("C:\\path\\to")[..]));
    assert_eq!(module_directory(&wide("C:/path/to\\module.exe")), Some(&wide("C:/path/to")[..]));
    assert_eq!(module_directory(&wide("C:\\path/module.exe")), Some(&wide("C:\\path")[..]));
    assert_eq!(module_directory(&wide("\\module.exe")), Some(&wide("")[..]));
    assert_eq!(module_directory(&wide("dir\\")), Some(&wide("dir")[..]));
    assert_eq!(module_directory(&wide("module.exe")), None);
    assert_eq!(module_directory(&wide("")), None);
}

#[test]
fn search_path_takes_each_directory_once() {
    let mut path = SearchPath::new(wide("C:\\a;C:\\b"));
    path.add(&wide("C:\\c"));
    path.add(&wide("C:\\a"));
    path.add(&wide("C:\\b"));
    path.add(&wide("C:\\"));
    path.add(&wide("c:\\a"));
    assert!(path.contains(&wide("C:\\c")));
    assert!(!path.contains(&wide("C:")));
    assert!(!path.contains(&wide("C:\\a;C:\\b")));
    assert_eq!(path.finalize(), wide("C:\\a;C:\\b;C:\\c;C:\\;c:\\a\0"));
}

#[test]
fn search_path_separates_entries_only_where_needed() {
    let mut path = SearchPath::new(wide(".;"));
    path.add(&wide("C:\\x"));
    assert_eq!(path.finalize(), wide(".;C:\\x\0"));

    let mut path = SearchPath::new(Vec::new());
    path.add(&wide("C:\\x"));
    assert_eq!(path.finalize(), wide(";C:\\x\0"));

    let mut path = SearchPath::new(wide("a;;b"));
    assert!(path.contains(&wide("")));
    path.add(&wide(""));
    assert_eq!(path.finalize(), wide("a;;b\0"));

    let mut path = SearchPath::new(wide("a"));
    assert!(!path.contains(&wide("")));
    path.add(&wide(""));
    assert_eq!(path.finalize(), wide("a;\0"));
}

#[test]
fn search_path_is_built_from_the_reported_path_and_the_loaded_modules() {
    let mut buffer = wide("C:\\symbols\0stale;junk");
    buffer.resize(1024, 0);
    let modules = vec![
        wide("C:\\app\\app.exe"),
        wide("C:\\windows\\system32\\ntdll.dll"),
        wide("C:\\app\\plugin.dll"),
        wide("no_directory.dll"),
        wide("C:\\symbols\\extra.dll"),
    ];
    assert_eq!(
        set_optional_options(buffer.clone(), true, &modules),
        wide("C:\\symbols;C:\\app;C:\\windows\\system32\0")
    );
    assert_eq!(
        set_optional_options(buffer, false, &modules),
        wide(".;C:\\app;C:\\windows\\system32;C:\\symbols\0")
    );
    assert_eq!(set_optional_options(Vec::new(), true, &Vec::new()), wide("\0"));
    assert_eq!(SearchPath::from_query(wide("abc"), true).finalize(), wide("abc\0"));
}

#[test]
fn name_is_reencoded_as_utf8() {
    assert_eq!(reencode(&wide("main")), b"main".to_vec());
    assert_eq!(reencode(&wide("größe::名前::𝄞")), "größe::名前::𝄞".as_bytes().to_vec());
    assert_eq!(reencode(&[0xd834, 0xdd1e]), "𝄞".as_bytes().to_vec());
    assert_eq!(reencode(&[0x61, 0xd834, 0x62, 0xdd1e, 0xd834]), "a\u{fffd}b\u{fffd}\u{fffd}".as_bytes().to_vec());
    assert_eq!(reencode(&[]), Vec::<u8>::new());
    assert_eq!(decode_utf16(&[0xd800, 0xdc00, 0xdbff, 0xdfff, 0xd7ff, 0xe000]), vec![0x10000, 0x10ffff, 0xd7ff, 0xe000]);
}

#[test]
fn reencoded_name_is_cut_before_the_character_that_does_not_fit() {
    assert_eq!(NAME_BUFFER, 256);
    assert_eq!(reencode(&wide(&"a".repeat(300))), "a".repeat(255).into_bytes());
    assert_eq!(reencode(&wide(&"a".repeat(255))), "a".repeat(255).into_bytes());
    let long = format!("{}é", "a".repeat(254));
    assert_eq!(reencode(&wide(&long)), "a".repeat(254).into_bytes());
    let long = format!("{}éb", "a".repeat(253));
    assert_eq!(reencode(&wide(&long)), format!("{}é", "a".repeat(253)).into_bytes());
    let long = format!("{}名b", "a".repeat(253));
    assert_eq!(reencode(&wide(&long)), "a".repeat(253).into_bytes());
    let long = format!("{}𝄞", "a".repeat(252));
    assert_eq!(reencode(&wide(&long)), "a".repeat(252).into_bytes());
    let long = format!("{}𝄞", "a".repeat(251));
    assert_eq!(reencode(&wide(&long)), long.into_bytes());
}

#[test]
fn symbol_is_made_of_what_the_library_reported() {
    let mut name = wide("module!function");
    name.resize(2000, 0x78);
    let info = SymbolInfo { name, name_len: 15, address: 0x1400 };
    let line = LineInfo { line_number: 12, file_name: wide("C:\\src\\main.rs\0rest") };
    let symbol = do_resolve(Some(info), Some(line)).unwrap();
    assert_eq!(symbol.name(), Some(&b"module!function".to_vec()));
    assert_eq!(symbol.addr(), Some(0x1400));
    assert_eq!(symbol.lineno(), Some(12));
    match symbol.filename_raw() {
        Some(BytesOrWideString::Wide(w)) => assert_eq!(w, &wide("C:\\src\\main.rs")[..]),
        other => panic!("{:?}", other),
    }

    let info = SymbolInfo { name: wide("f"), name_len: 1, address: 1 };
    let symbol = do_resolve(Some(info), None).unwrap();
    assert_eq!(symbol.lineno(), None);
    assert!(symbol.filename_raw().is_none());

    assert!(do_resolve(None, Some(LineInfo { line_number: 1, file_name: wide("x\0") })).is_none());
    assert!(do_resolve(None, None).is_none());
}

#[test]
fn claimed_name_length_is_held_to_the_bounds() {
    let info = SymbolInfo { name: wide("short"), name_len: 4000, address: 1 };
    assert_eq!(do_resolve(Some(info), None).unwrap().name(), Some(&b"short".to_vec()));
    let info = SymbolInfo { name: wide("short"), name_len: 3, address: 1 };
    assert_eq!(do_resolve(Some(info), None).unwrap().name(), Some(&b"sho".to_vec()));
    let info = SymbolInfo { name: wide("short"), name_len: 0, address: 1 };
    assert_eq!(do_resolve(Some(info), None).unwrap().name(), Some(&Vec::new()));
    let info = SymbolInfo { name: wide(&"n".repeat(2000)), name_len: 2000, address: 1 };
    assert_eq!(do_resolve(Some(info), None).unwrap().name(), Some(&"n".repeat(255).into_bytes()));
    assert_eq!(terminated_len(&wide("abc\0def")), 3);
    assert_eq!(terminated_len(&wide("abc")), 3);
    assert_eq!(terminated_len(&wide("\0abc")), 0);
    assert_eq!(terminated_len(&[]), 0);
}

#[test]
fn lossy_conversion_replaces_what_cannot_be_decoded() {
    assert_eq!(BytesOrWideString::Bytes(b"/usr/lib/libc.so").to_str_lossy(), "/usr/lib/libc.so");
    assert_eq!(BytesOrWideString::Bytes("größe".as_bytes()).to_str_lossy(), "größe");
    assert_eq!(BytesOrWideString::Bytes(b"a\xffb").to_str_lossy(), "a\u{fffd}b");
    assert_eq!(BytesOrWideString::Bytes(b"").to_str_lossy(), "");
    assert_eq!(BytesOrWideString::Wide(&wide("C:\\größe\\𝄞")).to_str_lossy(), "C:\\größe\\𝄞");
    assert_eq!(BytesOrWideString::Wide(&[0x61, 0xdc00, 0x62, 0xd800]).to_str_lossy(), "a\u{fffd}b\u{fffd}");
    assert_eq!(BytesOrWideString::Wide(&[0xd800, 0xd800, 0xdc00]).to_str_lossy(), "\u{fffd}\u{10000}");
}

#[test]
fn source_position_without_file_or_function_is_turned_down() {
    let (symbol, status) = libbacktrace::pcinfo_cb(0x10, Some(b"a.c".to_vec()), 3, Some(b"f".to_vec()));
    assert_eq!(status, 0);
    let symbol = symbol.unwrap();
    assert_eq!(symbol.name(), Some(&b"f".to_vec()));
    assert_eq!(symbol.addr(), Some(0x10));
    assert_eq!(symbol.filename(), Some(&b"a.c".to_vec()));
    assert!(matches!(symbol.filename_raw(), Some(BytesOrWideString::Bytes(b"a.c"))));
    assert_eq!(symbol.lineno(), Some(3));
    assert!(!libbacktrace::wants_syminfo(status));

    for (file, function) in [(None, Some(b"f".to_vec())), (Some(b"a.c".to_vec()), None), (None, None)] {
        let (symbol, status) = libbacktrace::pcinfo_cb(0x10, file, 3, function);
        assert_eq!(symbol, None);
        assert_eq!(status, -1);
        assert!(libbacktrace::wants_syminfo(status));
    }

    let symbol = libbacktrace::syminfo_cb(0, Some(b"g".to_vec()));
    assert_eq!(symbol.name(), Some(&b"g".to_vec()));
    assert_eq!(symbol.addr(), None);
    assert_eq!(symbol.filename(), None);
    assert!(symbol.filename_raw().is_none());
    assert_eq!(symbol.lineno(), None);
    assert_eq!(libbacktrace::syminfo_cb(5, None).name(), None);
    assert_eq!(libbacktrace::syminfo_cb(5, None).addr(), Some(5));
    let (symbol, _) = libbacktrace::pcinfo_cb(0, Some(Vec::new()), -1, Some(Vec::new()));
    assert_eq!(symbol.unwrap().lineno(), Some(u32::MAX));
}

#[test]
fn path_of_the_executable_is_taken_only_when_it_is_whole_and_stable() {
    let buffer = b"C:\\app.exe\0\0\0\0\0\0";
    assert_eq!(libbacktrace::query_full_name(buffer, 1, 10), Some(&b"C:\\app.exe\0"[..]));
    assert_eq!(libbacktrace::query_full_name(buffer, 0, 10), None);
    assert_eq!(libbacktrace::query_full_name(buffer, 1, 16), None);
    assert_eq!(libbacktrace::query_full_name(buffer, 1, 17), None);
    assert_eq!(libbacktrace::query_full_name(buffer, 1, 9), None);
    assert_eq!(libbacktrace::query_full_name(buffer, 1, 15), Some(&buffer[..]));

    let name: &[u8] = b"C:\\app.exe\0";
    let other: &[u8] = b"C:\\own.exe\0";
    assert_eq!(libbacktrace::load_filename(Some(name), true, Some(name)), Some(name));
    assert_eq!(libbacktrace::load_filename(Some(name), false, Some(name)), None);
    assert_eq!(libbacktrace::load_filename(Some(name), true, Some(other)), None);
    assert_eq!(libbacktrace::load_filename(Some(name), true, Some(&name[..4])), None);
    assert_eq!(libbacktrace::load_filename(Some(name), true, None), None);
    assert_eq!(libbacktrace::load_filename(None, true, Some(name)), None);
}
