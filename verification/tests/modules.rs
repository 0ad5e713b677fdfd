use kafer_core::error::Error;
use kafer_core::memory::MemoryImage;
use kafer_core::processes::name_equals;
use kafer_core::processes::name_matches;
use kafer_core::processes::DirectoryEntry;
use kafer_core::processes::ExportTarget;
use kafer_core::processes::Module;
use kafer_core::processes::PdbSymbols;
use kafer_core::processes::ProcedureSymbol;
use kafer_core::processes::Process;
use kafer_core::processes::PublicSymbol;

const BASE: u64 = 0x40_0000;

fn put(bytes: &mut [u8], at: usize, data: &[u8]) {
    bytes[at..at + data.len()].copy_from_slice(data);
}

fn put_u16(bytes: &mut [u8], at: usize, value: u16) {
    put(bytes, at, &value.to_le_bytes());
}

fn put_u32(bytes: &mut [u8], at: usize, value: u32) {
    put(bytes, at, &value.to_le_bytes());
}

/// An image with headers at 0x80, an export directory at 0x200 and a debug
/// directory at 0x300.
fn image_bytes() -> Vec<u8> {
    let mut bytes = vec![0u8; 0x400];
    // The first header, with the place of the headers proper.
    put_u16(&mut bytes, 0, 0x5a4d);
    put_u32(&mut bytes, 60, 0x80);
    // Signature, machine and size of the image.
    put_u32(&mut bytes, 0x80, 0x4550);
    put_u16(&mut bytes, 0x84, 0x8664);
    put_u32(&mut bytes, 0x80 + 80, 0x3000);
    // The export directory and the debug directory.
    put_u32(&mut bytes, 0x80 + 136, 0x200);
    put_u32(&mut bytes, 0x80 + 140, 0x100);
    put_u32(&mut bytes, 0x80 + 184, 0x300);
    put_u32(&mut bytes, 0x80 + 188, 56);
    // Export directory: name, ordinal base, three functions, two names.
    put_u32(&mut bytes, 0x200 + 12, 0x260);
    put_u32(&mut bytes, 0x200 + 16, 1);
    put_u32(&mut bytes, 0x200 + 20, 3);
    put_u32(&mut bytes, 0x200 + 24, 2);
    put_u32(&mut bytes, 0x200 + 28, 0x230);
    put_u32(&mut bytes, 0x200 + 32, 0x240);
    put_u32(&mut bytes, 0x200 + 36, 0x250);
    // Functions: two addresses outside the directory, one inside.
    put_u32(&mut bytes, 0x230, 0x1000);
    put_u32(&mut bytes, 0x234, 0x2000);
    put_u32(&mut bytes, 0x238, 0x270);
    // Names and the functions that they belong to.
    put_u32(&mut bytes, 0x240, 0x280);
    put_u32(&mut bytes, 0x244, 0x290);
    put_u16(&mut bytes, 0x250, 0);
    put_u16(&mut bytes, 0x252, 2);
    put(&mut bytes, 0x260, b"test.dll\0");
    put(&mut bytes, 0x270, b"other.Bar\0");
    put(&mut bytes, 0x280, b"Foo\0");
    put(&mut bytes, 0x290, b"Fwd\0");
    // Debug directory: an entry of another type, then one that names a
    // symbol file.
    put_u32(&mut bytes, 0x300 + 12, 13);
    put_u32(&mut bytes, 0x300 + 28 + 12, 2);
    put_u32(&mut bytes, 0x300 + 28 + 16, 24 + 16);
    put_u32(&mut bytes, 0x300 + 28 + 20, 0x380);
    // The record of the symbol file and its path.
    put_u32(&mut bytes, 0x380, 0x5344_5352);
    put_u32(&mut bytes, 0x384, 0x0403_0201);
    put_u16(&mut bytes, 0x388, 0x0605);
    put_u16(&mut bytes, 0x38a, 0x0807);
    put(&mut bytes, 0x38c, &[0x10, 0x11, 0x12, 0x13, 0x14, 0x15, 0x16, 0x17]);
    put_u32(&mut bytes, 0x380 + 20, 3);
    put(&mut bytes, 0x380 + 24, b"C:\\sym\\test.pdb\0");
    bytes
}

fn image() -> MemoryImage {
    MemoryImage::new(BASE, &image_bytes())
}

#[test]
fn module_from_its_image() {
    let module = Module::from_memory_view(BASE, Some(String::from("given.exe")), &image()).unwrap();
    assert_eq!(module.name.as_deref(), Some("given.exe"));
    assert_eq!(module.name(), "given.exe");
    assert_eq!(module.address, BASE);
    assert_eq!(module.size, 0x3000);
    assert_eq!(module.pe_header.machine, 0x8664);
    assert_eq!(module.pe_header.signature, 0x4550);
    assert_eq!(module.exports.len(), 3);
    assert!(module.symbols.is_none());
}

#[test]
fn exports_of_a_module() {
    let module = Module::from_memory_view(BASE, None, &image()).unwrap();
    let exports = &module.exports;
    assert_eq!(exports[0].name.as_deref(), Some("Foo"));
    assert_eq!(exports[0].ordinal, 1);
    assert!(matches!(exports[0].target, ExportTarget::Rva(0x40_1000)));
    assert_eq!(exports[0].target.as_rva(), Some(0x40_1000));
    assert_eq!(exports[1].name, None);
    assert_eq!(exports[1].ordinal, 2);
    assert!(matches!(exports[1].target, ExportTarget::Rva(0x40_2000)));
    assert_eq!(exports[2].name.as_deref(), Some("Fwd"));
    assert_eq!(exports[2].ordinal, 3);
    assert!(matches!(&exports[2].target, ExportTarget::Forwarder(name) if name == "other.Bar"));
    assert_eq!(exports[2].target.as_rva(), None);
}

#[test]
fn export_at_the_edges_of_the_export_directory() {
    // The directory takes up 0x200 to 0x2ff.
    for (rva, forwarder) in [(0x1ffu32, false), (0x200, true), (0x2ff, true), (0x300, false)] {
        let mut bytes = image_bytes();
        put_u32(&mut bytes, 0x238, rva);
        put(&mut bytes, 0x2ff, b"x\0");
        let module = Module::from_memory_view(BASE, None, &MemoryImage::new(BASE, &bytes)).unwrap();
        assert_eq!(
            matches!(module.exports[2].target, ExportTarget::Forwarder(_)),
            forwarder,
            "rva {rva:#x}"
        );
    }
}

#[test]
fn name_from_the_export_directory() {
    let module = Module::from_memory_view(BASE, None, &image()).unwrap();
    assert_eq!(module.name.as_deref(), Some("test.dll"));
    assert_eq!(module.name(), "test.dll");
}

#[test]
fn name_from_the_base_address() {
    let mut bytes = image_bytes();
    // No export directory.
    put_u32(&mut bytes, 0x80 + 136, 0);
    let module = Module::from_memory_view(BASE, None, &MemoryImage::new(BASE, &bytes)).unwrap();
    assert_eq!(module.name, None);
    assert_eq!(module.name(), "module_400000");
    assert!(module.exports.is_empty());
    let high = MemoryImage::new(0x7ffa_bcde_0000, &bytes);
    let module = Module::from_memory_view(0x7ffa_bcde_0000, None, &high).unwrap();
    assert_eq!(module.name(), "module_7FFABCDE0000");
}

#[test]
fn symbol_file_of_a_module() {
    let module = Module::from_memory_view(BASE, None, &image()).unwrap();
    assert_eq!(module.pdb_name.as_deref(), Some("C:\\sym\\test.pdb"));
    let info = module.pdb_info.unwrap();
    assert_eq!(info.signature, 0x5344_5352);
    assert_eq!(info.guid.data1, 0x0403_0201);
    assert_eq!(info.guid.data2, 0x0605);
    assert_eq!(info.guid.data3, 0x0807);
    assert_eq!(info.guid.data4, 0x1716_1514_1312_1110);
    assert_eq!(info.age, 3);
}

#[test]
fn symbol_file_path_is_bounded_by_the_size_of_the_debug_data() {
    let mut bytes = image_bytes();
    put_u32(&mut bytes, 0x300 + 28 + 16, 24 + 6);
    let module = Module::from_memory_view(BASE, None, &MemoryImage::new(BASE, &bytes)).unwrap();
    assert_eq!(module.pdb_name.as_deref(), Some("C:\\sym"));
    // Debug data that is too small for the record leaves no room for a path.
    put_u32(&mut bytes, 0x300 + 28 + 16, 10);
    let module = Module::from_memory_view(BASE, None, &MemoryImage::new(BASE, &bytes)).unwrap();
    assert_eq!(module.pdb_name.as_deref(), Some(""));
}

#[test]
fn module_without_debug_directory() {
    let mut bytes = image_bytes();
    put_u32(&mut bytes, 0x80 + 184, 0);
    let module = Module::from_memory_view(BASE, None, &MemoryImage::new(BASE, &bytes)).unwrap();
    assert_eq!(module.pdb_name, None);
    assert!(module.pdb_info.is_none());
}

#[test]
fn unsupported_machine() {
    let mut bytes = image_bytes();
    put_u16(&mut bytes, 0x84, 0x014c);
    let result = Module::from_memory_view(BASE, None, &MemoryImage::new(BASE, &bytes));
    assert!(matches!(result, Err(Error::UnsupportedMachine)));
}

#[test]
fn headers_that_cannot_be_read() {
    let bytes = image_bytes();
    let short = MemoryImage::new(BASE, &bytes[..0x30]);
    assert!(matches!(
        Module::from_memory_view(BASE, None, &short),
        Err(Error::MemorySourceNotEnoughData)
    ));
    let short = MemoryImage::new(BASE, &bytes[..0x100]);
    assert!(matches!(
        Module::from_memory_view(BASE, None, &short),
        Err(Error::MemorySourceNotEnoughData)
    ));
    assert!(matches!(
        Module::from_memory_view(0x9000, None, &image()),
        Err(Error::MemorySourceNotEnoughData)
    ));
}

#[test]
fn export_tables_that_cannot_be_read_leave_no_exports() {
    let mut bytes = image_bytes();
    // More functions than the image holds.
    put_u32(&mut bytes, 0x200 + 20, 0x1000);
    let module = Module::from_memory_view(BASE, None, &MemoryImage::new(BASE, &bytes)).unwrap();
    assert!(module.exports.is_empty());
    assert_eq!(module.name, None);
    assert_eq!(module.size, 0x3000);
    assert_eq!(module.pdb_name.as_deref(), Some("C:\\sym\\test.pdb"));
}

#[test]
fn debug_directory_that_cannot_be_read_leaves_no_symbol_file() {
    let mut bytes = image_bytes();
    put_u32(&mut bytes, 0x300 + 28 + 20, 0x5000);
    let module = Module::from_memory_view(BASE, None, &MemoryImage::new(BASE, &bytes)).unwrap();
    assert_eq!(module.pdb_name, None);
    assert!(module.pdb_info.is_none());
    assert_eq!(module.exports.len(), 3);
}

#[test]
fn data_directories() {
    let module = Module::from_memory_view(BASE, None, &image()).unwrap();
    let exports = module.get_data_directory(DirectoryEntry::Export).unwrap();
    assert_eq!((exports.virtual_address, exports.size), (0x200, 0x100));
    let debug = module.get_data_directory(DirectoryEntry::Debug).unwrap();
    assert_eq!((debug.virtual_address, debug.size), (0x300, 56));
    assert!(module.get_data_directory(DirectoryEntry::Exception).is_none());
}

fn process() -> Process {
    let mut process = Process::new();
    process.add_module(BASE, None, &image()).unwrap();
    process
}

#[test]
fn address_to_name_with_offset() {
    assert_eq!(process().address_to_name(0x40_1008).as_deref(), Some("test.dll!Foo+0x8"));
}

#[test]
fn address_to_name_at_the_symbol() {
    assert_eq!(process().address_to_name(0x40_1000).as_deref(), Some("test.dll!Foo"));
}

#[test]
fn address_to_name_takes_the_closest_symbol() {
    let process = process();
    assert_eq!(process.address_to_name(0x40_1fff).as_deref(), Some("test.dll!Foo+0xFFF"));
    assert_eq!(process.address_to_name(0x40_2000).as_deref(), Some("test.dll!Ordinal2"));
    assert_eq!(process.address_to_name(0x40_2abc).as_deref(), Some("test.dll!Ordinal2+0xABC"));
}

#[test]
fn address_to_name_before_every_symbol() {
    assert_eq!(process().address_to_name(0x40_0fff), None);
    assert_eq!(process().address_to_name(BASE), None);
}

#[test]
fn address_to_name_outside_every_module() {
    let process = process();
    assert_eq!(process.address_to_name(0x3f_ffff), None);
    assert_eq!(process.address_to_name(0x40_3000), None);
    assert_eq!(process.address_to_name(0), None);
    assert_eq!(process.address_to_name(u64::MAX), None);
}

#[test]
fn address_to_name_passes_over_forwarders() {
    // The forwarder's text lies at 0x400270, before the address asked for,
    // and is no symbol.
    let mut bytes = image_bytes();
    put_u32(&mut bytes, 0x230, 0x270);
    put_u32(&mut bytes, 0x234, 0x270);
    let mut process = Process::new();
    process.add_module(BASE, None, &MemoryImage::new(BASE, &bytes)).unwrap();
    assert_eq!(process.address_to_name(0x40_0280), None);
}

fn symbols() -> PdbSymbols {
    PdbSymbols {
        publics: vec![
            PublicSymbol { name: String::from("main"), function: true, rva: Some(0x1800) },
            PublicSymbol { name: String::from("table"), function: false, rva: Some(0x1900) },
            PublicSymbol { name: String::from("FooAlias"), function: true, rva: Some(0x1000) },
            PublicSymbol { name: String::from("nowhere"), function: true, rva: None },
        ],
        procedures: vec![
            ProcedureSymbol { name: String::from("helper"), rva: Some(0x1810) },
            ProcedureSymbol { name: String::from("lost"), rva: None },
            ProcedureSymbol { name: String::from("helper"), rva: Some(0x1820) },
        ],
    }
}

#[test]
fn address_to_name_with_a_symbol_file() {
    let mut process = process();
    assert!(process.attach_symbols(BASE, symbols()));
    assert_eq!(process.address_to_name(0x40_1804).as_deref(), Some("test.dll!main+0x4"));
    // Data symbols are passed over.
    assert_eq!(process.address_to_name(0x40_1904).as_deref(), Some("test.dll!main+0x104"));
    // A public symbol at the address of an export is taken.
    assert_eq!(process.address_to_name(0x40_1000).as_deref(), Some("test.dll!FooAlias"));
    // A symbol without a place lies at the base.
    assert_eq!(process.address_to_name(0x40_0010).as_deref(), Some("test.dll!nowhere+0x10"));
}

#[test]
fn attach_symbols_to_a_module_that_is_not_there() {
    let mut process = process();
    assert!(!process.attach_symbols(0x50_0000, symbols()));
    assert_eq!(process.address_to_name(0x40_1804).as_deref(), Some("test.dll!Foo+0x804"));
}

#[test]
fn name_to_address_of_an_export() {
    let process = process();
    assert_eq!(process.name_to_address("test.dll", "Foo").unwrap(), 0x40_1000);
    assert_eq!(process.name_to_address("TEST.DLL", "Foo").unwrap(), 0x40_1000);
}

#[test]
fn name_to_address_of_an_unknown_module() {
    let error = process().name_to_address("nope.dll", "Foo").unwrap_err();
    assert!(matches!(error, Error::UnknownModuleName(name) if name == "nope.dll"));
}

#[test]
fn name_to_address_of_an_unknown_symbol() {
    let process = process();
    let error = process.name_to_address("test.dll", "foo").unwrap_err();
    assert!(
        matches!(error, Error::UnknownSymbol(module, name) if module == "test.dll" && name == "foo")
    );
    // A forwarder has no address of its own.
    assert!(matches!(process.name_to_address("test.dll", "Fwd"), Err(Error::UnknownSymbol(_, _))));
}

#[test]
fn name_to_address_of_a_procedure() {
    let mut process = process();
    process.attach_symbols(BASE, symbols());
    assert_eq!(process.name_to_address("test.dll", "helper").unwrap(), 0x40_1810);
    assert!(matches!(process.name_to_address("test.dll", "lost"), Err(Error::UnknownSymbol(_, _))));
    // Public symbols are not looked at.
    assert!(matches!(process.name_to_address("test.dll", "main"), Err(Error::UnknownSymbol(_, _))));
}

#[test]
fn modules_by_address_and_by_name() {
    let mut process = process();
    let second = MemoryImage::new(0x50_0000, &image_bytes());
    process.add_module(0x50_0000, Some(String::from("C:\\Windows\\System32\\Second.DLL")), &second).unwrap();
    assert_eq!(process.get_module_by_address(0x40_2fff).unwrap().address, BASE);
    assert_eq!(process.get_module_by_address(0x50_0000).unwrap().address, 0x50_0000);
    assert!(process.get_module_by_address(0x40_3000).is_none());
    assert!(process.get_module_by_address(0x4f_ffff).is_none());
    assert_eq!(process.get_module_by_name("second.dll").unwrap().address, 0x50_0000);
    assert_eq!(
        process.get_module_by_name("c:\\windows\\system32\\second.dll").unwrap().address,
        0x50_0000
    );
    assert!(process.get_module_by_name("system32\\second.dll").is_none());
    assert_eq!(
        process.module_names(),
        vec![String::from("test.dll"), String::from("C:\\Windows\\System32\\Second.DLL")]
    );
    assert_eq!(process.name_to_address("second.dll", "Foo").unwrap(), 0x50_1000);
}

#[test]
fn a_module_that_cannot_be_described_is_not_added() {
    let mut process = process();
    assert!(process.add_module(0x90_0000, None, &image()).is_err());
    assert_eq!(process.module_names(), vec![String::from("test.dll")]);
}

#[test]
fn removing_a_module() {
    let mut process = process();
    process.remove_module(0x1234);
    assert_eq!(process.module_names().len(), 1);
    process.remove_module(BASE);
    assert!(process.module_names().is_empty());
    assert_eq!(process.address_to_name(0x40_1008), None);
}

#[test]
fn threads_of_a_process() {
    let mut process = Process::new();
    assert!(process.threads().is_empty());
    process.add_thread(10);
    process.add_thread(20);
    process.add_thread(30);
    process.add_thread(20);
    assert_eq!(process.threads(), &[10, 20, 30, 20]);
    process.remove_thread(20);
    assert_eq!(process.threads(), &[10, 30]);
    process.remove_thread(99);
    assert_eq!(process.threads(), &[10, 30]);
}

#[test]
fn names_match_as_a_whole_or_by_the_last_component() {
    assert!(name_matches("ntdll.dll", "ntdll.dll"));
    assert!(name_matches("c:\\windows\\ntdll.dll", "ntdll.dll"));
    assert!(name_matches("c:\\windows\\ntdll.dll", "c:\\windows\\ntdll.dll"));
    assert!(!name_matches("c:\\windows\\ntdll.dll", "windows\\ntdll.dll"));
    assert!(!name_matches("ntdll.dll", "tdll.dll"));
    assert!(!name_matches("ntdll.dll", "ntdll"));
    assert!(name_matches("dir\\", ""));
    assert!(name_matches("", ""));
    assert!(!name_matches("a", ""));
}

#[test]
fn names_are_equal_whatever_their_case() {
    assert!(name_equals("C:\\Windows\\NTDLL.DLL", "ntdll.dll"));
    assert!(name_equals("ntdll.dll", "NtDll.Dll"));
    assert!(name_equals("ÄÖÜ.dll", "äöü.DLL"));
    assert!(!name_equals("ntdll.dll", "kernel32.dll"));
}

#[test]
fn directories_of_no_size_are_empty() {
    let mut bytes = image_bytes();
    // Both directories keep their place and lose their size.
    put_u32(&mut bytes, 0x80 + 140, 0);
    put_u32(&mut bytes, 0x80 + 188, 0);
    let module = Module::from_memory_view(BASE, None, &MemoryImage::new(BASE, &bytes)).unwrap();
    assert!(module.exports.is_empty());
    assert_eq!(module.name, None);
    assert_eq!(module.pdb_name, None);
    assert!(module.pdb_info.is_none());
    assert!(module.get_data_directory(DirectoryEntry::Export).is_none());
    assert!(module.get_data_directory(DirectoryEntry::Debug).is_none());
}

#[test]
fn directories_that_lie_nowhere_are_empty() {
    let mut bytes = image_bytes();
    put_u32(&mut bytes, 0x80 + 136, 0);
    put_u32(&mut bytes, 0x80 + 184, 0);
    let module = Module::from_memory_view(BASE, None, &MemoryImage::new(BASE, &bytes)).unwrap();
    assert!(module.exports.is_empty());
    assert_eq!(module.pdb_name, None);
}
