use stork::pe::convert::convert_pe32_to_pe64;
use stork::pe::headers::Headers;
use stork::pe::imports::{build_imports, ImportDescriptor, MAX_IMPORTS};
use stork::pe::layout::{put_bytes, u32_at};
use stork::pe::view::{DataDirectory, Section};
use stork::strategy::import_table::{
    check_policy, clr_address, clr_header, import_block, redirect_imports, select_model,
    ClrHeader, ImportWalk, Model, WalkStep, COR_FLAG_32BIT_REQUIRED, COR_FLAG_ILONLY,
};
use stork::{Error, Result, Strategy};

const NONE: DataDirectory = DataDirectory { rva: 0, size: 0 };

fn headers(image_size: u32, header_size: u32) -> Headers {
    Headers {
        machine: 0x8664,
        magic: 0x20b,
        characteristics: 0,
        image_size,
        header_size,
        directories: [NONE; 16],
        sections: vec![],
    }
}

/// Walk the imports of an image whose memory is `bytes`.
fn read_imports(base: usize, headers: &Headers, bytes: &[u8]) -> Result<Vec<ImportDescriptor>> {
    let mut walk = ImportWalk::start(base, headers)?;
    loop {
        match walk.step()? {
            WalkStep::Read(address) => walk.received(&bytes[address - base..][..20])?,
            WalkStep::Done => return Ok(walk.finish()),
        }
    }
}

#[test]
fn import_walk_is_bounded_and_does_not_dereference_thunks() {
    let size = (MAX_IMPORTS + 1) * 20;
    let descriptor = ImportDescriptor {
        name: u32::MAX,
        first_thunk: u32::MAX,
        original_first_thunk: u32::MAX,
        ..Default::default()
    };
    let mut bytes = vec![0; 1 + size];
    for chunk in bytes[1..].chunks_exact_mut(20) {
        descriptor.write(chunk);
    }
    let mut headers = headers((size + 1) as u32, 1);
    headers.directories[1] = DataDirectory { rva: 1, size: size as u32 };
    let base = 0x1_4000_0000;
    assert!(read_imports(base, &headers, &bytes).is_err());
    bytes[1 + size - 20..].fill(0);
    let imports = read_imports(base, &headers, &bytes).unwrap();
    assert_eq!(imports.len(), MAX_IMPORTS);
    assert!(imports.iter().all(|item| *item == descriptor));
    headers.directories[1].size = 20;
    assert!(read_imports(base, &headers, &bytes).is_err());
    headers.directories[1].size = 0;
    assert_eq!(read_imports(base, &headers, &bytes).unwrap().len(), MAX_IMPORTS);
}

#[test]
fn import_walks_name_what_is_wrong() {
    let mut headers = headers(0x1000, 0x200);
    assert_eq!(read_imports(0, &headers, &[]).unwrap(), []);
    for (rva, size, base, expected) in [
        (0, 20, 0, "import size without RVA"),
        (0xff0, 20, 0, "RVA outside image"),
        (0xff0, 0, 0, "unterminated or truncated import table"),
        (0x2000, 0, 0, "unterminated or truncated import table"),
        (0x800, 0, usize::MAX, "import address overflow"),
    ] {
        headers.directories[1] = DataDirectory { rva, size };
        let error = match ImportWalk::start(base, &headers) {
            Err(error) => error,
            Ok(walk) => walk.step().unwrap_err(),
        };
        assert_eq!(error.to_string(), format!("PE parse error: {expected}"));
    }
    headers.directories[1] = DataDirectory { rva: 0x800, size: 0x200 };
    let mut walk = ImportWalk::start(0x1000, &headers).unwrap();
    assert_eq!(walk.step().unwrap(), WalkStep::Read(0x1800));
    assert_eq!(
        walk.received(&[0; 19]).unwrap_err().to_string(),
        "PE parse error: truncated data"
    );
}

#[test]
fn import_walks_end_at_the_first_descriptor_without_a_name() {
    let base = 0x1_4000_0000;
    let descriptor = |name| ImportDescriptor { name, first_thunk: name + 1, ..Default::default() };
    let listed = [descriptor(5), descriptor(9), descriptor(0), descriptor(7)];
    let mut bytes = vec![0; 0x1000];
    for (n, item) in listed.iter().enumerate() {
        item.write(&mut bytes[0x800 + n * 20..][..20]);
    }
    let mut headers = headers(0x1000, 0x200);
    for (size, expected) in [(0, Some(2)), (80, Some(2)), (60, Some(2)), (59, None), (40, None)] {
        headers.directories[1] = DataDirectory { rva: 0x800, size };
        match (read_imports(base, &headers, &bytes), expected) {
            (Ok(found), Some(n)) => assert_eq!(found, listed[..n]),
            (Err(error), None) => assert_eq!(
                error.to_string(),
                "PE parse error: unterminated or truncated import table"
            ),
            (result, _) => panic!("{size}: {result:?}"),
        }
    }
}

#[test]
fn clr_directory_and_declared_header_must_fit() {
    let base = 0x1_4000_0000;
    let mut headers = headers(4096, 512);
    let read = |headers: &Headers, declared: u32, flags: u32| -> Result<Option<ClrHeader>> {
        let mut memory = vec![0; 4096];
        put_bytes(&mut memory, 512, &declared.to_le_bytes());
        put_bytes(&mut memory, 528, &flags.to_le_bytes());
        match clr_address(base, headers)? {
            None => Ok(None),
            Some(va) => clr_header(va, headers, &memory[va - base..][..20]).map(Some),
        }
    };
    for (rva, size, declared) in [
        (0, 72, 72u32),
        (512, 19, 72),
        (4090, 72, 72),
        (512, 72, 20),
        (512, 72, 80),
    ] {
        headers.directories[14] = DataDirectory { rva, size };
        assert!(read(&headers, declared, 0).is_err());
    }
    headers.directories[14] = DataDirectory { rva: 512, size: 72 };
    let clr = read(&headers, 72, COR_FLAG_ILONLY).unwrap().unwrap();
    assert_eq!(clr.flags, COR_FLAG_ILONLY);
    assert_eq!(clr.va, base + 512);
}

#[test]
fn clr_headers_name_what_is_wrong() {
    let mut headers = headers(4096, 512);
    assert_eq!(clr_address(0, &headers).unwrap(), None);
    for (rva, size, base, expected) in [
        (0, 72, 0, "CLR size without RVA"),
        (512, 71, 0, "truncated CLR directory"),
        (4090, 72, 0, "RVA outside image"),
        (512, 72, usize::MAX, "CLR address overflow"),
    ] {
        headers.directories[14] = DataDirectory { rva, size };
        assert_eq!(
            clr_address(base, &headers).unwrap_err().to_string(),
            format!("PE parse error: {expected}")
        );
    }
    headers.directories[14] = DataDirectory { rva: 512, size: 72 };
    for (declared, length, expected) in [
        (71, 20, "invalid CLR header size"),
        (73, 20, "invalid CLR header size"),
        (72, 19, "truncated data"),
    ] {
        let mut bytes = vec![0; length];
        bytes[0] = declared;
        assert_eq!(
            clr_header(512, &headers, &bytes).unwrap_err().to_string(),
            format!("PE parse error: {expected}")
        );
    }
}

#[test]
fn managed_images_are_admitted_by_their_flags() {
    let clr = |flags| Some(ClrHeader { va: 0x1000, flags });
    let refused = |headers: &Headers, clr| match check_policy(headers, clr) {
        Err(Error::StrategyUnavailable { strategy: Strategy::ImportTableHijack, reason }) => reason,
        other => panic!("{other:?}"),
    };
    let wide = headers(0x1000, 0x200);
    check_policy(&wide, None).unwrap();
    check_policy(&wide, clr(0)).unwrap();
    check_policy(&wide, clr(COR_FLAG_ILONLY)).unwrap();
    let required = "32BITREQUIRED managed targets are unsupported";
    assert_eq!(refused(&wide, clr(COR_FLAG_32BIT_REQUIRED)), required);
    let narrow = Headers { machine: 0x14c, magic: 0x10b, ..headers(0x1000, 0x200) };
    check_policy(&narrow, clr(COR_FLAG_ILONLY)).unwrap();
    assert_eq!(refused(&narrow, None), "PE32 targets need a CLR header (managed AnyCPU)");
    assert_eq!(
        refused(&narrow, clr(0)),
        "mixed-mode 32-bit managed targets are unsupported"
    );
    assert_eq!(refused(&narrow, clr(COR_FLAG_ILONLY | COR_FLAG_32BIT_REQUIRED)), required);
    for (headers, clr) in [
        (Headers { machine: 0xaa64, ..headers(0x1000, 0x200) }, None),
        (
            Headers { machine: 0xaa64, magic: 0x10b, ..headers(0x1000, 0x200) },
            clr(COR_FLAG_ILONLY),
        ),
    ] {
        assert!(matches!(check_policy(&headers, clr), Err(Error::UnsupportedMachine(0xaa64))));
    }
}

fn put16(b: &mut [u8], o: usize, v: u16) {
    stork::pe::layout::write(b, o, &v).unwrap();
}

fn put32(b: &mut [u8], o: usize, v: u32) {
    stork::pe::layout::write(b, o, &v).unwrap();
}

/// The headers of an image with one section and 16 directories.
fn image(machine: u16, magic: u16) -> Vec<u8> {
    let mut b = vec![0; 0x400];
    let (optional, directories) = if magic == 0x20b { (240, 0x98 + 112) } else { (224, 0x98 + 96) };
    put16(&mut b, 0, 0x5a4d);
    put32(&mut b, 60, 0x80);
    put32(&mut b, 0x80, 0x4550);
    put16(&mut b, 0x84, machine);
    put16(&mut b, 0x86, 1);
    put16(&mut b, 0x94, optional);
    put16(&mut b, 0x96, 0x22);
    put16(&mut b, 0x98, magic);
    put32(&mut b, 0xd0, 0x3000);
    put32(&mut b, 0xd4, 0x400);
    put32(&mut b, 0xd8, 0x1234);
    put32(&mut b, directories - 4, 16);
    let section = 0x98 + optional as usize;
    put32(&mut b, section + 8, 0x1000);
    put32(&mut b, section + 12, 0x1000);
    put32(&mut b, section + 16, 0x800);
    put32(&mut b, section + 20, 0x400);
    b
}

#[test]
fn models_are_the_headers_or_their_widening() {
    let wide = image(0x8664, 0x20b);
    let model = select_model(Headers::parse_remote(&wide).unwrap(), &wide, None).unwrap();
    assert_eq!(model.patched, wide);
    assert_eq!(model.headers.magic, 0x20b);
    let mut narrow = image(0x14c, 0x10b);
    put32(&mut narrow, 0x98 + 96 + 8, 0x1100);
    put32(&mut narrow, 0x98 + 96 + 12, 40);
    let clr = Some(ClrHeader { va: 0x1000, flags: COR_FLAG_ILONLY });
    let model = select_model(Headers::parse_remote(&narrow).unwrap(), &narrow, clr).unwrap();
    assert_eq!(model.patched, convert_pe32_to_pe64(&narrow).unwrap());
    assert_eq!(model.headers.magic, 0x20b);
    // The imports of the narrow image are not those of the model.
    assert_eq!(model.headers.directories[1], NONE);
    assert_eq!(Headers::parse_remote(&model.patched).unwrap().directories[1].rva, 0x1100);
    let wide = Headers::parse_remote(&model.patched).unwrap();
    let again = Model::widened(model.patched.clone(), wide);
    assert_eq!(again.headers.directories, model.headers.directories);
    assert_eq!(again.patched, model.patched);
    assert!(matches!(
        select_model(Headers::parse_remote(&narrow).unwrap(), &narrow, None),
        Err(Error::StrategyUnavailable { .. })
    ));
}

#[test]
fn import_blocks_lie_behind_the_image() {
    let path = b"C:\\payload.dll";
    let block = import_block(0x1_4000_0000, 0x1_5000_0000, &[], path, 1).unwrap();
    assert_eq!(block.rva, 0x1000_0000);
    assert_eq!(block.bytes, build_imports(&[], path, 1, 0x1000_0000).unwrap());
    for (base, address, expected) in [
        (0x1_4000_0000, 0x1_3fff_ffff, "allocation below image"),
        (0, u32::MAX as usize + 1, "allocation RVA overflow"),
    ] {
        assert_eq!(
            import_block(base, address, &[], path, 1).unwrap_err().to_string(),
            format!("PE parse error: {expected}")
        );
    }
    assert!(import_block(0, u32::MAX as usize, &[], path, 1).is_err());
}

/// Redirect the imports of an image with these directories.
fn redirect(imports: DataDirectory, iat: DataDirectory) -> Result<Vec<u8>> {
    let mut bytes = image(0x8664, 0x20b);
    for (index, d) in [(1, imports), (11, DataDirectory { rva: 0x250, size: 16 }), (12, iat)] {
        put32(&mut bytes, 0x98 + 112 + index * 8, d.rva);
        put32(&mut bytes, 0x98 + 112 + index * 8 + 4, d.size);
    }
    let headers = Headers::parse_remote(&bytes)?;
    redirect_imports(&headers, bytes, DataDirectory { rva: 0x5000, size: 0x60 })
}

#[test]
fn redirected_imports_replace_three_directories() {
    let imports = DataDirectory { rva: 0x1100, size: 40 };
    let block = DataDirectory { rva: 0x5000, size: 0x60 };
    for (old, iat, expected) in [
        // An IAT of its own stays.
        (
            imports,
            DataDirectory { rva: 0x1200, size: 0x20 },
            DataDirectory { rva: 0x1200, size: 0x20 },
        ),
        // The section of the imports stands in for a missing one.
        (imports, NONE, DataDirectory { rva: 0x1000, size: 0x800 }),
        // Imports outside the raw bytes of every section, or none at all.
        (DataDirectory { rva: 0x1800, size: 40 }, NONE, block),
        (NONE, NONE, block),
    ] {
        let bytes = redirect(old, iat).unwrap();
        let decoded = Headers::parse_remote(&bytes).unwrap();
        assert_eq!(decoded.directories[1], block);
        assert_eq!(decoded.directories[11], NONE);
        assert_eq!(decoded.directories[12], expected);
        assert_eq!(u32_at(&bytes, 0xd8).unwrap(), 0);
        assert_eq!(
            decoded.sections,
            [Section {
                rva: 0x1000,
                virtual_size: 0x1000,
                raw_offset: 0x400,
                raw_size: 0x800,
            }]
        );
    }
    assert_eq!(
        redirect(imports, DataDirectory { rva: 0, size: 8 }).unwrap_err().to_string(),
        "PE parse error: IAT size without RVA"
    );
    assert_eq!(
        redirect(imports, DataDirectory { rva: 0x2fff, size: 8 }).unwrap_err().to_string(),
        "PE parse error: RVA outside image"
    );
}
