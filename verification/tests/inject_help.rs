use dll_syringe::error::SyringeError;
use dll_syringe::inject_help::{find_export, InjectHelpData, PeExport};

fn put16(image: &mut [u8], at: usize, value: u16) {
    image[at..at + 2].copy_from_slice(&value.to_le_bytes());
}

fn put32(image: &mut [u8], at: usize, value: u32) {
    image[at..at + 4].copy_from_slice(&value.to_le_bytes());
}

/// A 32-bit library image whose only section is its export table.
fn tiny_dll(exports: &[(&str, u32)]) -> Vec<u8> {
    const HEADERS: usize = 0x200;
    const SECTION_RVA: u32 = 0x1000;
    const SECTION_SIZE: usize = 0x400;
    let mut image = vec![0u8; HEADERS + SECTION_SIZE];
    // DOS header
    image[0] = b'M';
    image[1] = b'Z';
    put32(&mut image, 0x3C, 0x40);
    // signature and file header
    image[0x40..0x44].copy_from_slice(b"PE\0\0");
    put16(&mut image, 0x44, 0x014C); // machine: i386
    put16(&mut image, 0x46, 1); // sections
    put16(&mut image, 0x54, 0xE0); // size of the optional header
    put16(&mut image, 0x56, 0x2102); // executable, 32-bit, library
    // optional header
    let opt = 0x58;
    put16(&mut image, opt, 0x010B); // PE32
    put32(&mut image, opt + 28, 0x1000_0000); // image base
    put32(&mut image, opt + 32, 0x1000); // section alignment
    put32(&mut image, opt + 36, 0x200); // file alignment
    put16(&mut image, opt + 40, 6); // operating system version
    put16(&mut image, opt + 48, 6); // subsystem version
    put32(&mut image, opt + 56, 0x2000); // size of image
    put32(&mut image, opt + 60, HEADERS as u32); // size of headers
    put16(&mut image, opt + 68, 3); // subsystem
    put32(&mut image, opt + 92, 16); // data directories
    put32(&mut image, opt + 96, SECTION_RVA); // export table
    put32(&mut image, opt + 100, SECTION_SIZE as u32);
    // section header
    let sec = opt + 0xE0;
    image[sec..sec + 6].copy_from_slice(b".edata");
    put32(&mut image, sec + 8, SECTION_SIZE as u32); // virtual size
    put32(&mut image, sec + 12, SECTION_RVA);
    put32(&mut image, sec + 16, SECTION_SIZE as u32); // size of raw data
    put32(&mut image, sec + 20, HEADERS as u32); // pointer to raw data
    put32(&mut image, sec + 36, 0x4000_0040); // initialised data, readable
    // export directory
    let n = exports.len() as u32;
    let dir = HEADERS;
    let addresses = 40u32;
    let names = addresses + 4 * n;
    let ordinals = names + 4 * n;
    let library_name = ordinals + 2 * n;
    let mut strings = library_name + 8;
    put32(&mut image, dir + 12, SECTION_RVA + library_name);
    put32(&mut image, dir + 16, 1); // ordinal base
    put32(&mut image, dir + 20, n);
    put32(&mut image, dir + 24, n);
    put32(&mut image, dir + 28, SECTION_RVA + addresses);
    put32(&mut image, dir + 32, SECTION_RVA + names);
    put32(&mut image, dir + 36, SECTION_RVA + ordinals);
    image[dir + library_name as usize..dir + library_name as usize + 7].copy_from_slice(b"k32.dll");
    for (i, (name, rva)) in exports.iter().enumerate() {
        put32(&mut image, dir + addresses as usize + 4 * i, *rva);
        put32(&mut image, dir + names as usize + 4 * i, SECTION_RVA + strings);
        put16(&mut image, dir + ordinals as usize + 2 * i, i as u16);
        let at = dir + strings as usize;
        image[at..at + name.len()].copy_from_slice(name.as_bytes());
        strings += name.len() as u32 + 1;
    }
    image
}

fn export(name: &str, rva: usize) -> PeExport {
    PeExport { name: Some(name.to_string()), rva }
}

#[test]
fn local_help_data_holds_offsets_from_the_base() {
    let data = InjectHelpData::from_local(0x7000_0000, 0x7000_1234, 0x7000_0010, 0x7000_FFFF)
        .unwrap();
    assert_eq!(data.kernel32_module(), 0x7000_0000);
    assert_eq!(data.get_load_library_fn_ptr(), 0x7000_1234);
    assert_eq!(data.get_free_library_fn_ptr(), 0x7000_0010);
    assert_eq!(data.get_proc_address_fn_ptr(), 0x7000_FFFF);
    assert!(data.below(0x7001_0000));
    assert!(!data.below(0x7000_FFFF));
}

#[test]
fn function_below_the_library_is_refused() {
    assert!(InjectHelpData::from_local(0x7000_0000, 0x6FFF_FFFF, 0x7000_0010, 0x7000_0020)
        .is_none());
    assert!(InjectHelpData::from_local(0x7000_0000, 0x7000_0000, 0, 0x7000_0020).is_none());
    assert!(InjectHelpData::from_local(0, 1, 2, 3).is_none());
    assert!(InjectHelpData::from_local(0x10, 0x10, 0x10, 0x10).is_some());
}

#[test]
fn first_export_of_a_name_is_found() {
    let exports = vec![
        PeExport { name: None, rva: 1 },
        export("FreeLibrary", 0x20),
        export("LoadLibraryW", 0x30),
        export("FreeLibrary", 0x40),
    ];
    assert_eq!(find_export(&exports, "FreeLibrary"), Some(0x20));
    assert_eq!(find_export(&exports, "LoadLibraryW"), Some(0x30));
    assert_eq!(find_export(&exports, "LoadLibraryA"), None);
    assert_eq!(find_export(&exports, ""), None);
    assert_eq!(find_export(&Vec::new(), "FreeLibrary"), None);
}

#[test]
fn help_data_from_exports_adds_the_base() {
    let exports = vec![
        export("GetProcAddress", 0x300),
        export("LoadLibraryA", 0x50),
        export("LoadLibraryW", 0x100),
        export("FreeLibrary", 0x200),
    ];
    let data = InjectHelpData::from_exports(0x7500_0000, &exports).unwrap();
    assert_eq!(data.kernel32_module(), 0x7500_0000);
    assert_eq!(data.get_load_library_fn_ptr(), 0x7500_0100);
    assert_eq!(data.get_free_library_fn_ptr(), 0x7500_0200);
    assert_eq!(data.get_proc_address_fn_ptr(), 0x7500_0300);
}

#[test]
fn missing_export_is_a_parse_error() {
    let exports = vec![export("LoadLibraryW", 0x100), export("FreeLibrary", 0x200)];
    assert_eq!(
        InjectHelpData::from_exports(0x7500_0000, &exports).err(),
        Some(SyringeError::PeParse)
    );
    let all = vec![
        export("LoadLibraryW", 0x100),
        export("FreeLibrary", 0x200),
        export("GetProcAddress", 0x300),
    ];
    assert_eq!(InjectHelpData::from_exports(0, &all).err(), Some(SyringeError::PeParse));
    assert_eq!(
        InjectHelpData::from_exports(usize::MAX - 0x2FF, &all).err(),
        Some(SyringeError::PeParse)
    );
    assert!(InjectHelpData::from_exports(usize::MAX - 0x300, &all).is_ok());
}

#[test]
fn exports_are_read_from_a_library_image() {
    let image = tiny_dll(&[
        ("FreeLibrary", 0x2010),
        ("GetProcAddress", 0x2020),
        ("LoadLibraryA", 0x2030),
        ("LoadLibraryW", 0x2040),
    ]);
    let data = InjectHelpData::from_image(0x7600_0000, &image).unwrap();
    assert_eq!(data.get_load_library_fn_ptr(), 0x7600_2040);
    assert_eq!(data.get_free_library_fn_ptr(), 0x7600_2010);
    assert_eq!(data.get_proc_address_fn_ptr(), 0x7600_2020);
}

#[test]
fn image_without_the_exports_is_a_parse_error() {
    let image = tiny_dll(&[("FreeLibrary", 0x2010), ("LoadLibraryW", 0x2040)]);
    assert_eq!(
        InjectHelpData::from_image(0x7600_0000, &image).err(),
        Some(SyringeError::PeParse)
    );
}

#[test]
fn bytes_that_are_no_library_are_a_parse_error() {
    assert_eq!(InjectHelpData::from_image(0x7600_0000, &[]).err(), Some(SyringeError::PeParse));
    assert_eq!(
        InjectHelpData::from_image(0x7600_0000, &[0x4D, 0x5A, 0, 0]).err(),
        Some(SyringeError::PeParse)
    );
    let not_a_library = vec![0x12u8; 512];
    assert_eq!(
        InjectHelpData::from_image(0x7600_0000, &not_a_library).err(),
        Some(SyringeError::PeParse)
    );
    let mut truncated = tiny_dll(&[("LoadLibraryW", 0x2040)]);
    truncated.truncate(0x100);
    assert_eq!(
        InjectHelpData::from_image(0x7600_0000, &truncated).err(),
        Some(SyringeError::PeParse)
    );
}
