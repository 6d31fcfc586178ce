use stork::pe::convert::{convert_pe32_to_pe64, widen};
use stork::pe::headers::{ordinal_one, Headers};
use stork::pe::imports::{build_imports, ImportDescriptor};
use stork::pe::layout::{
    header_read_size, machine_gate, nt_offset, read, u16_at, u32_at, HEADER_PREFIX_SIZE,
    MAX_HEADERS,
};
use stork::pe::view::{DataDirectory, ExportTarget};
use stork::Error;

fn put16(b: &mut [u8], o: usize, v: u16) {
    stork::pe::layout::write(b, o, &v).unwrap();
}

fn put32(b: &mut [u8], o: usize, v: u32) {
    stork::pe::layout::write(b, o, &v).unwrap();
}

fn message(error: &Error) -> String {
    error.to_string()
}

#[test]
fn image_ranges_reject_overflow_and_preserve_end_boundaries() {
    let b = export_pe(&[0x1300], 1, 0x200, false);
    let headers = Headers::parse(&b).unwrap();
    assert!(headers.image_range(1, usize::MAX).is_err());
    assert!(headers.image_range(u32::MAX, usize::MAX).is_err());
    assert!(headers.image_range(headers.image_size, 0).is_ok());
    assert!(headers.image_range(headers.image_size, 1).is_err());
    assert!(headers.image_range(headers.image_size - 1, 1).is_ok());
}
/// A minimal PE32+ AMD64 DLL whose single .edata section lives at
/// file offset 0x800 but virtual RVA 0x1000, so RVA translation is
/// exercised. `eat` are the raw AddressOfFunctions entries.
fn export_pe(eat: &[u32], base: u32, dir_size: u32, with_file_marker: bool) -> Vec<u8> {
    let mut b = vec![0; 0x1800];
    put16(&mut b, 0, 0x5a4d);
    put32(&mut b, 60, 0x100);
    b[0x100..0x104].copy_from_slice(b"PE\0\0");
    put16(&mut b, 0x104, 0x8664);
    put16(&mut b, 0x106, 1);
    put16(&mut b, 0x114, 240);
    put16(&mut b, 0x116, 0x2000); // size of optional header, DLL
    put16(&mut b, 0x118, 0x20b);
    put32(&mut b, 0x150, 0x2000);
    put32(&mut b, 0x154, 0x400);
    put32(&mut b, 0x184, 16);
    let export_rva = 0x1000u32;
    let funcs_rva = export_rva + 0x100;
    put32(&mut b, 0x188, export_rva);
    put32(&mut b, 0x18c, dir_size);
    let section = 0x208;
    b[section..section + 8].copy_from_slice(b".edata\0\0");
    put32(&mut b, section + 8, 0x1000);
    put32(&mut b, section + 12, 0x1000);
    put32(&mut b, section + 16, 0x1000);
    put32(&mut b, section + 20, 0x800);
    // Export directory at RVA 0x1000 (file offset 0x800).
    put32(&mut b, 0x800 + 16, base);
    put32(&mut b, 0x800 + 20, eat.len() as u32);
    put32(&mut b, 0x800 + 28, funcs_rva);
    for (i, e) in eat.iter().enumerate() {
        put32(&mut b, 0x800 + 0x100 + i * 4, *e);
    }
    if with_file_marker {
        b[0x1200..0x1208].copy_from_slice(b"RVA-MARK");
    }
    b
}
#[test]
fn file_range_translates_through_sections() {
    let b = export_pe(&[], 1, 0x40, true);
    let h = Headers::parse(&b).unwrap();
    h.validate_file(&b).unwrap();
    // RVA 0x1A00 lives at raw offset 0x1200, not 0x1A00.
    assert_eq!(h.file_range(&b, 0x1a00, 8).unwrap(), b"RVA-MARK");
    assert!(h.file_range(&b, 0x1a08, 8).is_ok());
    // Beyond the raw section data the file RVA has no bytes.
    assert!(h.file_range(&b, 0x1f00, 0x200).is_err());
    // Header RVAs map directly.
    assert_eq!(h.file_range(&b, 0x200, 4).unwrap(), &b[0x200..0x204]);
}
#[test]
fn import_requires_ordinal_one() {
    for (exports, base, size, accepted) in [
        (&[0x1300][..], 1, 0x200, true),
        (&[0, 0x1300][..], 0, 0x200, true),
        (&[0x10f0][..], 1, 0x200, true),
        (&[0, 0x1300][..], 1, 0x200, false),
        (&[0x1300][..], 7, 0x200, false),
        (&[0x1300][..], 0x10001, 0x200, false),
        (&[0x1300][..], 1, 39, false),
    ] {
        let b = export_pe(exports, base, size, false);
        let result = Headers::parse(&b).unwrap().import_ordinal(&b);
        assert_eq!(result.is_ok(), accepted, "base {base}, exports {exports:?}");
        if accepted {
            assert_eq!(result.unwrap(), 1);
        }
    }
}
#[test]
fn builder_offsets_and_nulls() {
    let old = ImportDescriptor {
        name: 50,
        first_thunk: 60,
        ..Default::default()
    };
    let b = build_imports(&[old], b"C:\\space path\\a.dll", 37, 0x10000).unwrap();
    assert_eq!(ImportDescriptor::parse(&b[20..]).unwrap(), old);
    assert_eq!(
        ImportDescriptor::parse(&b[40..]).unwrap(),
        ImportDescriptor::default()
    );
    let d = ImportDescriptor::parse(&b).unwrap();
    let i = (d.original_first_thunk - 0x10000) as usize;
    assert_eq!(i % 8, 0);
    assert_eq!(&b[i..i + 8], &((1u64 << 63) | 37).to_le_bytes());
    assert_eq!(&b[i + 8..i + 16], &[0; 8]);
    assert!(build_imports(&[], b"a", 1, u32::MAX).is_err());
    assert!(build_imports(&[], b"", 1, 0).is_err());
}
#[test]
fn truncated_headers() {
    for n in 0..512 {
        assert!(Headers::parse(&vec![0; n]).is_err());
    }
}
#[test]
fn structural_boundaries() {
    // e_lfanew inside the file but beyond MAX_HEADERS range.
    let mut b = vec![0; 0x400];
    put16(&mut b, 0, 0x5a4d);
    put32(&mut b, 60, MAX_HEADERS as u32 - 100);
    assert!(Headers::parse(&b).is_err());
    // Data-directory count that does not fit the optional header.
    let mut b = export_pe(&[0x1300], 1, 0x200, false);
    put32(&mut b, 0x184, 17);
    assert!(Headers::parse(&b).is_err());
    // A section that ends past the image size.
    let mut b = export_pe(&[0x1300], 1, 0x200, false);
    put32(&mut b, 0x208 + 12, 0xff00);
    assert!(Headers::parse(&b).is_err());
    // Machine types: x86 is a bitness mismatch, ARM64 is unsupported.
    let mut b = export_pe(&[0x1300], 1, 0x200, false);
    put16(&mut b, 0x104, 0x14c);
    assert!(matches!(
        Headers::parse(&b),
        Err(Error::BitnessMismatch { .. })
    ));
    let mut b = export_pe(&[0x1300], 1, 0x200, false);
    put16(&mut b, 0x104, 0xaa64);
    assert!(matches!(
        Headers::parse(&b),
        Err(Error::UnsupportedMachine(0xaa64))
    ));
}
fn pe32_fixture(header_size: u32) -> Vec<u8> {
    let mut b = vec![0; header_size as usize];
    put16(&mut b, 0, 0x5a4d);
    put32(&mut b, 60, 0x100);
    b[0x100..0x104].copy_from_slice(b"PE\0\0");
    put16(&mut b, 0x104, 0x14c);
    put16(&mut b, 0x106, 1);
    put16(&mut b, 0x114, 224);
    put16(&mut b, 0x116, 0x2000); // DLL characteristic
    put16(&mut b, 0x118, 0x10b); // PE32 magic
    put32(&mut b, 0x150, 0x2000); // SizeOfImage
    put32(&mut b, 0x154, header_size); // SizeOfHeaders
    put32(&mut b, 0x174, 16); // NumberOfRvaAndSizes (PE32 at +92)
    put32(&mut b, 0x178, 0x1234); // directory 0 rva
    let section = 0x1f8; // optional + 224
    b[section..section + 8].copy_from_slice(b".text\0\0\0");
    put32(&mut b, section + 8, 0x200);
    put32(&mut b, section + 12, 0x1000);
    put32(&mut b, section + 16, 0x200);
    put32(&mut b, section + 20, 0x800);
    put32(&mut b, section + 36, 0x60000020);
    b
}
#[test]
fn pe32_to_pe64_conversion() {
    let b32 = pe32_fixture(0x400);
    // The PE32 parses leniently and fails the strict payload gate.
    let h32 = Headers::parse_remote(&b32).unwrap();
    assert_eq!(h32.magic, 0x10b);
    assert!(matches!(
        Headers::parse(&b32),
        Err(Error::BitnessMismatch { .. })
    ));
    let c = convert_pe32_to_pe64(&b32).unwrap();
    assert_eq!(u16_at(&c, 0x104).unwrap(), 0x8664);
    assert_eq!(u16_at(&c, 0x114).unwrap(), 240);
    assert_eq!(u16_at(&c, 0x118).unwrap(), 0x20b);
    assert_eq!(u32_at(&c, 0x150).unwrap(), 0x2000);
    assert_eq!(u32_at(&c, 0x154).unwrap(), 0x400);
    // Directory 0 moved from PE32 +96 to PE32+ +112; count at +108.
    assert_eq!(u32_at(&c, 0x118 + 112).unwrap(), 0x1234);
    assert_eq!(u32_at(&c, 0x118 + 108).unwrap(), 16);
    let h = Headers::parse_remote(&c).unwrap();
    assert_eq!((h.machine, h.magic), (0x8664, 0x20b));
    assert_eq!(h.image_size, 0x2000);
    assert_eq!(h.header_size, 0x400);
    assert_eq!(h.directories[0].rva, 0x1234);
    assert_eq!(h.sections.len(), 1);
    assert_eq!(h.sections[0].rva, 0x1000);
    assert_eq!(h.sections[0].raw_offset, 0x800);
    assert_eq!(&c[0x208..0x210], b".text\0\0\0");
    assert_eq!(&c[0x208..0x230], &b32[0x1f8..0x220]);
    // The strict gate accepts the widened buffer.
    assert!(Headers::parse(&c).is_ok());
    // Refusals: undersized optional header, no room for the section table.
    let mut small = pe32_fixture(0x400);
    put16(&mut small, 0x114, 200);
    assert!(convert_pe32_to_pe64(&small).is_err());
    let tight = pe32_fixture(0x228);
    assert!(convert_pe32_to_pe64(&tight).is_err());
}
#[test]
fn remote_headers_require_the_full_declared_region() {
    let pe32 = pe32_fixture(0x400);
    let pe64 = convert_pe32_to_pe64(&pe32).unwrap();
    for image in [&pe32, &pe64] {
        for length in 0..image.len() {
            assert!(
                Headers::parse_remote(&image[..length]).is_err(),
                "accepted {length} bytes"
            );
        }
        assert!(Headers::parse_remote(image).is_ok());
    }
}
#[test]
fn widening_preserves_padding_and_refuses_overlapping_directories() {
    let mut b = pe32_fixture(0x400);
    b[0x300..].fill(0xa5);
    put32(&mut b, 0x178, 0x300);
    put32(&mut b, 0x17c, 0x100);
    let widened = convert_pe32_to_pe64(&b).unwrap();
    assert_eq!(&widened[0x230..], &b[0x230..]);
    put32(&mut b, 0x178, 0x220);
    assert!(convert_pe32_to_pe64(&b).is_err());
}
#[test]
fn widening_has_detours_section_limit() {
    for count in [32u16, 33] {
        let mut b = pe32_fixture(0x1000);
        put16(&mut b, 0x106, count);
        put32(&mut b, 0x150, (u32::from(count) + 1) * 0x1000);
        for index in 0..usize::from(count) {
            let section = 0x1f8 + index * 40;
            put32(&mut b, section + 8, 0x200);
            put32(&mut b, section + 12, (index as u32 + 1) * 0x1000);
        }
        assert_eq!(convert_pe32_to_pe64(&b).is_ok(), count == 32);
    }
}
#[test]
fn architecture_gates() {
    assert!(machine_gate(0x8664).is_ok());
    assert!(matches!(
        machine_gate(0x14c),
        Err(Error::BitnessMismatch { .. })
    ));
    assert!(matches!(
        machine_gate(0xaa64),
        Err(Error::UnsupportedMachine(0xaa64))
    ));
}

// Literal wire offsets here are independent of the production Rust layouts.
#[test]
fn widening_preserves_optional_fields_and_zero_extends_addresses() {
    let mut b = pe32_fixture(0x400);
    let opt = 0x118;
    for (i, byte) in b[opt + 2..opt + 92].iter_mut().enumerate() {
        *byte = (i as u8).wrapping_mul(13).wrapping_add(128);
    }
    put32(&mut b, opt + 56, 0x2000);
    put32(&mut b, opt + 60, 0x400);
    let widened = convert_pe32_to_pe64(&b).unwrap();
    assert_eq!(&widened[opt + 2..opt + 24], &b[opt + 2..opt + 24]);
    assert_eq!(&widened[opt + 32..opt + 72], &b[opt + 32..opt + 72]);
    for (src, dst) in [(28, 24), (72, 72), (76, 80), (80, 88), (84, 96)] {
        let value = u64::from(u32_at(&b, opt + src).unwrap());
        assert_eq!(&widened[opt + dst..opt + dst + 8], &value.to_le_bytes());
    }
    assert_eq!(&widened[opt + 104..opt + 112], &b[opt + 88..opt + 96]);
    assert_eq!(&widened[opt + 112..opt + 240], &b[opt + 96..opt + 224]);
}

#[test]
fn typed_access_rejects_overflow_and_truncation_without_writes() {
    let original = [0xa5; 8];
    let mut b = original;
    for offset in [5, usize::MAX] {
        assert!(read::<u32>(&b, offset).is_err());
        assert!(stork::pe::layout::write(&mut b, offset, &0u32).is_err());
        assert_eq!(b, original);
    }
    // POD reads and writes also support unaligned input.
    stork::pe::layout::write(&mut b, 1, &0x12345678u32).unwrap();
    assert_eq!(read::<u32>(&b, 1).unwrap(), 0x12345678);
    for len in 0..ImportDescriptor::SIZE {
        assert!(ImportDescriptor::parse(&vec![0; len]).is_err());
    }
    let mut image = export_pe(&[0x1300], 1, 0x200, false);
    let headers = Headers::parse(&image).unwrap();
    let before = image.clone();
    assert!(
        headers
            .set_directory(&mut image, usize::MAX, DataDirectory::default())
            .is_err()
    );
    assert_eq!(image, before);
    assert!(
        headers
            .set_directory(&mut image[..64], 1, DataDirectory::default())
            .is_err()
    );
    assert!(headers.clear_checksum(&mut image[..64]).is_err());
    assert_eq!(image, before);
}

#[test]
fn staged_header_reads_are_bounded_for_both_formats() {
    for mut image in [pe32_fixture(0x400), export_pe(&[0x1300], 1, 0x200, false)] {
        let prefix_end = nt_offset(&image).unwrap() + HEADER_PREFIX_SIZE;
        for len in 0..prefix_end {
            assert!(header_read_size(&image[..len]).is_err());
        }
        assert_eq!(header_read_size(&image[..prefix_end]).unwrap(), 0x400);
        put32(&mut image, 0x154, MAX_HEADERS as u32 + 1);
        assert!(header_read_size(&image[..prefix_end]).is_err());
    }
}

#[test]
fn header_faults_are_named() {
    let parse = |b: &[u8]| message(&Headers::parse_remote(b).unwrap_err());
    let fixture = || pe32_fixture(0x400);
    assert_eq!(parse(&[0; 63]), "PE parse error: truncated data");
    assert_eq!(parse(&[0; 64]), "PE parse error: bad DOS signature");
    for (offset, value, expected) in [
        (60, 0, "invalid e_lfanew"),
        (60, 0x102, "invalid PE layout: Misaligned"),
        (60, 0x3f0, "invalid PE layout: Bounds"),
        (0x100, 0, "invalid PE layout: BadMagic"),
        (0x118, 0x30b, "invalid PE layout: BadMagic"),
        (0x154, 0x401, "invalid PE layout: Bounds"),
        (0x150, 0x3ff, "invalid PE layout: Insanity"),
        (0x154, 0, "invalid image/header size"),
        (0x154, 0x21f, "sections exceed headers"),
        (0x174, 15, "invalid data-directory count"),
        (0x174, 17, "invalid data-directory count"),
        (0x1f8 + 8, 0xffff_ffff, "section overflow"),
        (0x1f8 + 12, 0x3ff, "section outside image"),
        (0x1f8 + 8, 0x1001, "section outside image"),
    ] {
        let mut b = fixture();
        put32(&mut b, offset, value);
        assert_eq!(parse(&b), format!("PE parse error: {expected}"), "{offset:#x}");
    }
    for (offset, value, expected) in [
        (0x106, 0, "invalid section count"),
        (0x106, 97, "invalid PE layout: Insanity"),
        (0x106, 14, "invalid PE layout: Bounds"),
        (0x106, 13, "section outside image"),
        (0x114, 220, "invalid optional-header size"),
        (0x114, 4100, "invalid PE layout: Bounds"),
    ] {
        let mut b = fixture();
        put16(&mut b, offset, value);
        assert_eq!(parse(&b), format!("PE parse error: {expected}"), "{offset:#x}");
    }
}

#[test]
fn overlapping_sections_are_refused() {
    let mut b = pe32_fixture(0x400);
    put16(&mut b, 0x106, 2);
    let second = 0x1f8 + 40;
    for (rva, accepted) in [(0x1200, true), (0x11ff, false), (0x0e01, false), (0x0e00, true)] {
        put32(&mut b, second + 8, 0x200);
        put32(&mut b, second + 12, rva);
        assert_eq!(Headers::parse_remote(&b).is_ok(), accepted, "{rva:#x}");
    }
    put32(&mut b, second + 12, 0x1100);
    assert_eq!(
        message(&Headers::parse_remote(&b).unwrap_err()),
        "PE parse error: overlapping sections"
    );
}

#[test]
fn bytes_decode_wherever_they_lie() {
    let wide = export_pe(&[0x1300], 1, 0x200, true);
    let narrow = pe32_fixture(0x400);
    for lead in 0..8 {
        let mut shifted = vec![0xee; lead];
        shifted.extend_from_slice(&wide);
        let b = &shifted[lead..];
        let headers = Headers::parse(b).unwrap();
        assert_eq!(headers.file_range(b, 0x1a00, 8).unwrap(), b"RVA-MARK");
        assert_eq!(headers.import_ordinal(b).unwrap(), 1);
        let mut shifted = vec![0xee; lead];
        shifted.extend_from_slice(&narrow);
        assert_eq!(
            convert_pe32_to_pe64(&shifted[lead..]).unwrap(),
            convert_pe32_to_pe64(&narrow).unwrap()
        );
    }
}

#[test]
fn headers_need_an_offset_divisible_by_four_only() {
    let mut b = export_pe(&[0x1300], 1, 0x200, true);
    b.copy_within(0x100..0x230, 0x104);
    put32(&mut b, 60, 0x104);
    let headers = Headers::parse(&b).unwrap();
    assert_eq!((headers.machine, headers.magic, headers.image_size), (0x8664, 0x20b, 0x2000));
    assert_eq!(headers.sections[0].raw_offset, 0x800);
    assert_eq!(headers.file_range(&b, 0x1a00, 8).unwrap(), b"RVA-MARK");
    assert_eq!(headers.import_ordinal(&b).unwrap(), 1);
    put32(&mut b, 60, 0x106);
    assert_eq!(
        message(&Headers::parse_remote(&b).unwrap_err()),
        "PE parse error: invalid PE layout: Misaligned"
    );
}

#[test]
fn section_tables_need_no_alignment() {
    let narrow = pe32_fixture(0x400);
    let expected = Headers::parse_remote(&narrow).unwrap();
    for size in [225, 226, 227, 228] {
        let mut b = narrow.clone();
        let table = 0x118 + size as usize;
        b.copy_within(0x1f8..0x220, table);
        put16(&mut b, 0x114, size);
        let headers = Headers::parse_remote(&b).unwrap();
        assert_eq!(headers.sections, expected.sections, "{size}");
        assert_eq!(headers.directories, expected.directories, "{size}");
        let widened = convert_pe32_to_pe64(&b).unwrap();
        assert_eq!(Headers::parse_remote(&widened).unwrap().sections, expected.sections);
    }
    for size in [0, 1, 223, 4097] {
        let mut b = narrow.clone();
        b.resize(0x1800, 0);
        put16(&mut b, 0x114, size);
        assert_eq!(
            message(&Headers::parse_remote(&b).unwrap_err()),
            "PE parse error: invalid optional-header size",
            "{size}"
        );
    }
    let b = export_pe(&[0x1300], 1, 0x200, true);
    let odd = with_odd_table(&b);
    let headers = Headers::parse(&odd).unwrap();
    assert_eq!(headers.sections, Headers::parse(&b).unwrap().sections);
    assert_eq!(headers.file_range(&odd, 0x200, 4).unwrap(), &odd[0x200..0x204]);
    assert_eq!(headers.file_range(&odd, 0x1a00, 8).unwrap(), b"RVA-MARK");
    assert_eq!(headers.import_ordinal(&odd).unwrap(), 1);
    assert_eq!(
        message(&headers.file_range(&odd, 0x800, 4).unwrap_err()),
        "PE parse error: RVA has no file data: Bounds"
    );
    for (size, offset, rva, expected) in [
        (0x400, 0x800, 0x1500, "ZeroFill"),
        (0x1000, 0xffff_ff00, 0x1500, "Overflow"),
    ] {
        let mut odd = odd.clone();
        put32(&mut odd, 0x209 + 16, size);
        put32(&mut odd, 0x209 + 20, offset);
        assert_eq!(
            message(&headers.file_range(&odd, rva, 4).unwrap_err()),
            format!("PE parse error: RVA has no file data: {expected}")
        );
    }
}

/// The image with its section table one byte further on.
fn with_odd_table(b: &[u8]) -> Vec<u8> {
    let mut b = b.to_vec();
    b.copy_within(0x208..0x230, 0x209);
    put16(&mut b, 0x114, 241);
    b
}

/// The image with the raw data of its section two bytes further on.
fn with_odd_data(b: &[u8]) -> Vec<u8> {
    let raw_offset = u32_at(b, 0x208 + 20).unwrap();
    let mut b = b.to_vec();
    b.resize(0x1802, 0);
    b.copy_within(0x800..0x1800, 0x802);
    put32(&mut b, 0x208 + 20, raw_offset + 2);
    b
}

#[test]
fn exports_need_no_alignment_in_the_file() {
    let ordinal = |b: &[u8]| {
        let headers = Headers::parse(b).unwrap();
        headers.import_ordinal(b).map_err(|error| message(&error))
    };
    let mut images = vec![
        export_pe(&[0x1300], 1, 0x200, false),
        export_pe(&[0, 0x1300], 0, 0x200, false),
        export_pe(&[0x1300], 0, 0x200, false),
        export_pe(&[0, 0x1300], 1, 0x200, false),
        export_pe(&[0x1300], 7, 0x200, false),
        export_pe(&[], 1, 0x200, false),
        export_pe(&[0x1110], 1, 0x200, false),
        export_pe(&[0x2300], 1, 0x200, false),
    ];
    for (field, value) in [
        (0x188, 0x1002),
        (0x188, 0x800),
        (0x188, 0x1ff0),
        (0x208 + 16, 0x10),
        (0x208 + 16, 0x200),
        (0x208 + 20, 0x1700),
        (0x800 + 28, 0),
        (0x800 + 28, 0x1102),
        (0x800 + 28, 0x3000),
        (0x800 + 20, 0x1000),
        (0x800 + 24, 0x1000),
        (0x800 + 32, 0x1101),
        (0x800 + 36, 0x1101),
        (0x800 + 36, 0x1102),
    ] {
        let mut b = export_pe(&[0x1300], 1, 0x200, false);
        put32(&mut b, 0x150, 0x3000);
        put32(&mut b, field, value);
        images.push(b);
    }
    let mut unnamed = export_pe(&[0x1110], 1, 0x200, false);
    unnamed[0x910..].fill(b'x');
    images.push(unnamed);
    let expected: Vec<_> = images.iter().map(|b| ordinal(b)).collect();
    assert!(expected.iter().any(|found| found.is_ok()));
    assert!(expected.iter().any(|found| found.is_err()));
    for (n, b) in images.iter().enumerate() {
        assert_eq!(ordinal(&with_odd_table(b)), expected[n], "{n}");
        assert_eq!(ordinal(&with_odd_data(b)), expected[n], "{n}");
    }
}

#[test]
fn exports_are_those_of_the_bytes() {
    let b = export_pe(&[0x1300], 1, 0x200, false);
    let headers = Headers::parse(&b).unwrap();
    let mut other = b.clone();
    put32(&mut other, 0x188, 0);
    assert_eq!(
        message(&headers.import_ordinal(&other).unwrap_err()),
        "PE parse error: invalid export directory: Null"
    );
    // A directory that wraps around holds no forwarded export.
    for size in [0xffff_f000, 0xffff_f400] {
        put32(&mut other, 0x188, 0x1000);
        put32(&mut other, 0x18c, size);
        assert_eq!(headers.import_ordinal(&other).unwrap(), 1);
    }
}

#[test]
fn export_directories_are_read_from_their_section() {
    let section = 0x208;
    for (field, value, expected) in [
        (0x188, 0x1002, "invalid export directory: Misaligned"),
        (0x188, 0x800, "invalid export directory: Bounds"),
        (0x188, 0x1ff0, "invalid export directory: Bounds"),
        (section + 16, 0x10, "invalid export directory: ZeroFill"),
        (section + 20, 0x1700, "invalid export directory: Invalid"),
        (0x800 + 16, 2, "payload must export ordinal 1"),
    ] {
        let mut b = export_pe(&[0x1300], 1, 0x200, false);
        put32(&mut b, 0x150, 0x3000);
        put32(&mut b, field, value);
        assert_eq!(
            message(&Headers::parse(&b).unwrap().import_ordinal(&b).unwrap_err()),
            format!("PE parse error: {expected}"),
            "{field:#x}"
        );
    }
}

#[test]
fn payload_files_hold_their_sections() {
    let b = export_pe(&[0x1300], 1, 0x200, false);
    let h = Headers::parse(&b).unwrap();
    h.validate_file(&b).unwrap();
    assert_eq!(
        message(&h.validate_file(&b[..0x17ff]).unwrap_err()),
        "PE parse error: truncated data"
    );
    let mut low = b.clone();
    put32(&mut low, 0x208 + 20, 0x3ff);
    let h = Headers::parse(&low).unwrap();
    assert_eq!(
        message(&h.validate_file(&low).unwrap_err()),
        "PE parse error: section overlaps file headers"
    );
    // A section without raw data may lie anywhere.
    put32(&mut low, 0x208 + 16, 0);
    Headers::parse(&low).unwrap().validate_file(&low).unwrap();
    let mut exe = b.clone();
    put16(&mut exe, 0x116, 0);
    let h = Headers::parse(&exe).unwrap();
    assert_eq!(
        message(&h.validate_file(&exe).unwrap_err()),
        "PE parse error: payload is not a DLL"
    );
}

#[test]
fn strict_parsing_wants_native_images() {
    let mut b = export_pe(&[0x1300], 1, 0x200, false);
    put16(&mut b, 0x118, 0x10b);
    put32(&mut b, 0x174, 16);
    assert_eq!(
        message(&Headers::parse(&b).unwrap_err()),
        "PE parse error: expected PE32+"
    );
}

#[test]
fn forwarded_and_zero_filled_exports() {
    // A forwarder needs a terminated name inside the export directory.
    let mut b = export_pe(&[0x1110], 1, 0x200, false);
    assert_eq!(Headers::parse(&b).unwrap().import_ordinal(&b).unwrap(), 1);
    b[0x910..].fill(b'x');
    assert_eq!(
        message(&Headers::parse(&b).unwrap().import_ordinal(&b).unwrap_err()),
        "PE parse error: payload must export ordinal 1"
    );
    // A symbol in the zero-filled tail of a section has no file data.
    let mut b = export_pe(&[0x1f00], 1, 0x200, false);
    put32(&mut b, 0x208 + 16, 0x800);
    assert_eq!(
        message(&Headers::parse(&b).unwrap().import_ordinal(&b).unwrap_err()),
        "PE parse error: payload export is not backed by file data"
    );
    // An export directory outside the image.
    let mut b = export_pe(&[0x1300], 1, 0x200, false);
    put32(&mut b, 0x18c, 0xffff_ff00);
    assert_eq!(
        message(&Headers::parse(&b).unwrap().import_ordinal(&b).unwrap_err()),
        "PE parse error: RVA outside image"
    );
    let mut b = export_pe(&[0x1300], 1, 0x200, false);
    put32(&mut b, 0x188, 0);
    assert_eq!(
        message(&Headers::parse(&b).unwrap().import_ordinal(&b).unwrap_err()),
        "PE parse error: payload has no export directory"
    );
    // A misplaced directory, and a function table outside the image.
    let mut b = export_pe(&[0x1300], 1, 0x200, false);
    put32(&mut b, 0x188, 0x500);
    assert!(message(&Headers::parse(&b).unwrap().import_ordinal(&b).unwrap_err())
        .starts_with("PE parse error: invalid export directory: "));
    let mut b = export_pe(&[0x1300], 1, 0x200, false);
    put32(&mut b, 0x800 + 28, 0x1ffc);
    put32(&mut b, 0x800 + 20, 16);
    assert!(message(&Headers::parse(&b).unwrap().import_ordinal(&b).unwrap_err())
        .starts_with("PE parse error: invalid export tables: "));
}

#[test]
fn export_lookups_decide_about_ordinal_one() {
    let fault = || Err("Bounds".to_string());
    let symbol = || Ok(ExportTarget::Symbol(0x1300));
    assert_eq!(ordinal_one(Ok(1), Ok(()), symbol(), true).unwrap(), 1);
    assert_eq!(ordinal_one(Ok(0), Ok(()), symbol(), true).unwrap(), 1);
    assert_eq!(ordinal_one(Ok(1), Ok(()), Ok(ExportTarget::Forward), false).unwrap(), 1);
    for (result, expected) in [
        (
            ordinal_one(fault(), Ok(()), symbol(), true),
            "invalid export directory: Bounds",
        ),
        (ordinal_one(Ok(2), Ok(()), symbol(), true), "payload must export ordinal 1"),
        (
            ordinal_one(Ok(1), Err("Null".to_string()), symbol(), true),
            "invalid export tables: Null",
        ),
        (
            ordinal_one(Ok(1), Ok(()), Err("Null".to_string()), true),
            "payload must export ordinal 1",
        ),
        (
            ordinal_one(Ok(1), Ok(()), symbol(), false),
            "payload export is not backed by file data",
        ),
    ] {
        assert_eq!(message(&result.unwrap_err()), format!("PE parse error: {expected}"));
    }
}

#[test]
fn file_ranges_name_what_is_missing() {
    let mut b = export_pe(&[], 1, 0x40, true);
    put32(&mut b, 0x208 + 16, 0x800);
    let h = Headers::parse(&b).unwrap();
    for (rva, expected) in [
        (0x1900, "RVA has no file data: ZeroFill"),
        (0x0500, "RVA has no file data: Bounds"),
    ] {
        assert_eq!(
            message(&h.file_range(&b, rva, 4).unwrap_err()),
            format!("PE parse error: {expected}")
        );
    }
    assert_eq!(
        message(&h.file_range(&b, 0x1ffd, 4).unwrap_err()),
        "PE parse error: RVA outside image"
    );
    assert_eq!(
        message(&h.file_range(&pe32_fixture(0x400), 0, 4).unwrap_err()),
        "PE parse error: invalid PE layout: PeMagic"
    );
    // Raw data whose end overflows.
    put32(&mut b, 0x208 + 20, 0xffff_ff00);
    let h = Headers::parse(&b).unwrap();
    assert_eq!(
        message(&h.file_range(&b, 0x1000, 4).unwrap_err()),
        "PE parse error: RVA has no file data: Overflow"
    );
}

#[test]
fn patched_directories_decode() {
    let mut b = export_pe(&[0x1300], 1, 0x200, false);
    let before = Headers::parse(&b).unwrap();
    let directory = DataDirectory { rva: 0x7777, size: 0x88 };
    for index in 0..16 {
        before.set_directory(&mut b, index, directory).unwrap();
        let after = Headers::parse(&b).unwrap();
        let mut expected = before.directories;
        expected[..=index].fill(directory);
        assert_eq!(after.directories, expected);
        assert_eq!(after.sections, before.sections);
    }
    put32(&mut b, 0x118 + 64, 0xdead_beef);
    before.clear_checksum(&mut b).unwrap();
    assert_eq!(u32_at(&b, 0x118 + 64).unwrap(), 0);
    assert_eq!(Headers::parse(&b).unwrap().image_size, before.image_size);
    // PE32 headers are not patched in place.
    let mut narrow = pe32_fixture(0x400);
    let h = Headers::parse_remote(&narrow).unwrap();
    assert_eq!(
        message(&h.set_directory(&mut narrow, 1, directory).unwrap_err()),
        "PE parse error: invalid PE32+ directory mutation"
    );
    assert_eq!(
        message(&h.clear_checksum(&mut narrow).unwrap_err()),
        "PE parse error: expected PE32+"
    );
    assert_eq!(narrow, pe32_fixture(0x400));
}

#[test]
fn widened_headers_have_room_for_sixteen_directories_only() {
    let mut b = pe32_fixture(0x400);
    let sections = b[0x1f8..0x220].to_vec();
    put16(&mut b, 0x114, 232);
    put32(&mut b, 0x174, 17);
    b[0x200..0x228].copy_from_slice(&sections);
    let widened = convert_pe32_to_pe64(&b).unwrap();
    assert_eq!(&widened[0x208..0x230], &sections[..]);
    assert_eq!(
        message(&Headers::parse_remote(&widened).unwrap_err()),
        "PE parse error: invalid data-directory count"
    );
}

#[test]
fn widening_refusals_are_named() {
    let refusal = |b: &[u8]| message(&convert_pe32_to_pe64(b).unwrap_err());
    assert_eq!(
        refusal(&export_pe(&[0x1300], 1, 0x200, false)),
        "PE parse error: PE32 widening requires a PE32 image with at most 32 sections"
    );
    assert_eq!(
        refusal(&pe32_fixture(0x228)),
        "PE parse error: no room to widen the PE32 optional header"
    );
    let mut b = pe32_fixture(0x400);
    put32(&mut b, 0x178, 0x220);
    put32(&mut b, 0x17c, 0x10);
    assert_eq!(
        refusal(&b),
        "PE parse error: header-resident directory overlaps PE32 widening"
    );
    // The certificate directory holds a file offset, so it cannot overlap.
    put32(&mut b, 0x178, 0);
    put32(&mut b, 0x178 + 32, 0x220);
    put32(&mut b, 0x178 + 36, 0x10);
    assert!(convert_pe32_to_pe64(&b).is_ok());
}

#[test]
fn import_blocks_read_back() {
    let descriptor = |n: u32| ImportDescriptor {
        original_first_thunk: n,
        timestamp: n + 1,
        forwarder: n + 2,
        name: n + 3,
        first_thunk: n + 4,
    };
    let old: Vec<_> = (0..3).map(|n| descriptor(n * 10)).collect();
    let path = b"C:\\a.dll";
    let block = build_imports(&old, path, 1, 0x2000).unwrap();
    for (i, expected) in old.iter().enumerate() {
        assert_eq!(ImportDescriptor::parse(&block[(i + 1) * 20..]).unwrap(), *expected);
    }
    assert_eq!(
        ImportDescriptor::parse(&block[80..]).unwrap(),
        ImportDescriptor::default()
    );
    let new = ImportDescriptor::parse(&block).unwrap();
    // Five descriptors are 100 bytes; the thunks begin at the next multiple of eight.
    assert_eq!(new.original_first_thunk, 0x2000 + 104);
    assert_eq!(new.first_thunk, 0x2000 + 120);
    assert_eq!(new.name, 0x2000 + 136);
    assert_eq!(&block[104..112], &[1, 0, 0, 0, 0, 0, 0, 0x80]);
    assert_eq!(&block[112..120], &[0; 8]);
    assert_eq!(&block[120..136], &block[104..120]);
    assert_eq!(&block[136..], b"C:\\a.dll\0");
    // The size does not depend on the address.
    assert_eq!(build_imports(&old, path, 1, 0).unwrap().len(), block.len());
    let fits = u32::MAX - block.len() as u32;
    assert!(build_imports(&old, path, 1, fits).is_ok());
    assert_eq!(
        message(&build_imports(&old, path, 1, fits + 1).unwrap_err()),
        "PE parse error: import allocation exceeds RVA range"
    );
    for bad in [&b"a\0b"[..], &b""[..], &vec![b'a'; 32768][..]] {
        assert_eq!(
            message(&build_imports(&[], bad, 1, 0).unwrap_err()),
            "PE parse error: invalid import builder input"
        );
    }
    assert!(build_imports(&vec![descriptor(1); 4096], path, 1, 0).is_ok());
    assert!(build_imports(&vec![descriptor(1); 4097], path, 1, 0).is_err());
}

#[test]
fn typed_values_are_little_endian() {
    let mut b = [0u8; 16];
    stork::pe::layout::write(&mut b, 1, &0x1122u16).unwrap();
    stork::pe::layout::write(&mut b, 4, &0x8877_6655_4433_2211u64).unwrap();
    assert_eq!(
        b,
        [0, 0x22, 0x11, 0, 0x11, 0x22, 0x33, 0x44, 0x55, 0x66, 0x77, 0x88, 0, 0, 0, 0]
    );
    assert_eq!(read::<u16>(&b, 1).unwrap(), 0x1122);
    assert_eq!(read::<u64>(&b, 4).unwrap(), 0x8877_6655_4433_2211);
    assert_eq!(u16_at(&b, 4).unwrap(), 0x2211);
    assert_eq!(
        read::<DataDirectory>(&b, 4).unwrap(),
        DataDirectory { rva: 0x4433_2211, size: 0x8877_6655 }
    );
    assert_eq!(message(&read::<u64>(&b, 9).unwrap_err()), "PE parse error: truncated data");
    assert_eq!(
        message(&read::<u64>(&b, usize::MAX).unwrap_err()),
        "PE parse error: offset overflow"
    );
}

#[test]
fn decoded_headers_widen() {
    let b = pe32_fixture(0x400);
    let headers = Headers::parse_remote(&b).unwrap();
    let widened = widen(&b, &headers).unwrap();
    assert_eq!(widened, convert_pe32_to_pe64(&b).unwrap());
    assert_ne!(widened, b);
    let wide = Headers::parse_remote(&widened).unwrap();
    assert_eq!(
        message(&widen(&widened, &wide).unwrap_err()),
        "PE parse error: PE32 widening requires a PE32 image with at most 32 sections"
    );
}
