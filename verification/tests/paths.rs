use stork::paths::{canonical, import_path, normalized, wide, Resolved};
use stork::pe::imports::build_imports;
use stork::strategy::argument::load_argument;
use stork::Error;

fn units(text: &str) -> Vec<u16> {
    text.encode_utf16().collect()
}

#[test]
fn import_path_policy() {
    // ASCII local paths pass, with the verbatim prefix stripped.
    let p = units(r"D:\mirrord-stork\target\debug\test_payload.dll");
    assert_eq!(
        import_path(&p).unwrap(),
        b"D:\\mirrord-stork\\target\\debug\\test_payload.dll".to_vec()
    );
    let verbatim = units(r"\\?\D:\mirrord-stork\x.dll");
    assert_eq!(import_path(&verbatim).unwrap(), b"D:\\mirrord-stork\\x.dll".to_vec());
    // Spaces round-trip losslessly.
    assert_eq!(
        import_path(&units(r"C:\dir with spaces\a.dll")).unwrap(),
        b"C:\\dir with spaces\\a.dll".to_vec()
    );
    // Non-ASCII characters are rejected.
    let unicode = units(r"D:\ünïcode\x.dll");
    assert!(matches!(import_path(&unicode), Err(Error::UnsupportedPath(_))));
    // UNC paths are rejected.
    let unc = units(r"\\?\UNC\server\share\x.dll");
    assert!(matches!(import_path(&unc), Err(Error::UnsupportedPath(_))));
    // MAX_PATH-sized and longer paths are rejected.
    let mut long = String::from(r"D:\");
    for _ in 0..12 {
        long.push_str("abcdefghijklmnopqrstuvwxyz0123456789\\");
    }
    assert!(long.len() > 260);
    assert!(matches!(import_path(&units(&long)), Err(Error::UnsupportedPath(_))));
    // Embedded NUL is rejected.
    let nul = units("D:\\a\0b.dll");
    assert!(matches!(import_path(&nul), Err(Error::UnsupportedPath(_))));
    // An exactly short boundary passes.
    let mut short = String::from("C:\\");
    while short.len() < 259 {
        short.push('a');
    }
    assert!(import_path(&units(&short)).is_ok());
    short.push('a');
    assert!(matches!(
        import_path(&units(&short)),
        Err(Error::UnsupportedPath("IAT paths must fit MAX_PATH"))
    ));
}

#[test]
fn wide_rejects_nul_and_appends_terminator() {
    assert_eq!(
        wide(&units("abc")).unwrap(),
        vec![b'a' as u16, b'b' as u16, b'c' as u16, 0]
    );
    let nul = units("x\0y");
    assert!(matches!(wide(&nul), Err(Error::UnsupportedPath(_))));
}

#[test]
fn wide_preserves_surrogates_and_remote_terminator_bytes() {
    // One surrogate pair followed by an unpaired surrogate: both are valid
    // Windows path units and must survive without lossy Unicode conversion.
    let path = vec![0x0061, 0xd83e, 0xdd80, 0xd800];
    let encoded = wide(&path).unwrap();
    assert_eq!(encoded, &[0x0061, 0xd83e, 0xdd80, 0xd800, 0]);
    assert_eq!(
        load_argument(&path).unwrap(),
        &[0x61, 0, 0x3e, 0xd8, 0x80, 0xdd, 0, 0xd8, 0, 0]
    );
    assert_eq!(wide(&[]).unwrap(), &[0]);
}

#[test]
fn import_path_rejects_relative_unc_and_device_paths() {
    for path in [
        r"payload.dll",
        r"C:payload.dll",
        r"\payload.dll",
        r"\\server\share\payload.dll",
        r"\\.\C:\payload.dll",
        "",
    ] {
        assert!(
            matches!(import_path(&units(path)), Err(Error::UnsupportedPath(_))),
            "{path}"
        );
    }
}

#[test]
fn import_path_reasons_come_in_order() {
    for (path, reason) in [
        (r"\\?\UNC\a", "IAT UNC paths are unsupported"),
        (
            "C:\\\u{80}",
            "IAT supports ASCII paths only; use LoadLibrary for Unicode",
        ),
        ("C:", "IAT requires an absolute local drive path"),
        (r"1:\a", "IAT requires an absolute local drive path"),
        (r"C;\a", "IAT requires an absolute local drive path"),
        (r"C:a\a", "IAT requires an absolute local drive path"),
    ] {
        assert!(
            matches!(import_path(&units(path)), Err(Error::UnsupportedPath(why)) if why == reason),
            "{path}"
        );
    }
    // A marker without the verbatim prefix is an ordinary relative path.
    assert!(matches!(
        import_path(&units(r"UNC\a")),
        Err(Error::UnsupportedPath("IAT requires an absolute local drive path"))
    ));
    // Both separators and both cases of drive letters are accepted.
    for path in [r"c:\a", "Z:/a", r"A:\", "z:/"] {
        assert_eq!(import_path(&units(path)).unwrap(), path.as_bytes());
    }
}

#[test]
fn accepted_import_paths_can_be_imported() {
    for path in [r"\\?\C:\a.dll", r"C:\with space\b.dll"] {
        let name = import_path(&units(path)).unwrap();
        assert!(name.iter().all(|byte| *byte != 0 && byte.is_ascii()));
        assert!(build_imports(&[], &name, 1, 0).is_ok());
    }
}

#[test]
fn canonical_paths_are_files_that_exist() {
    let path = units(r"C:\in.dll");
    let found = units(r"\\?\C:\real.dll");
    assert_eq!(
        canonical(&path, Resolved::Found { path: found.clone(), is_file: true }).unwrap(),
        found
    );
    assert!(matches!(
        canonical(&path, Resolved::Found { path: found, is_file: false }),
        Err(Error::UnsupportedPath("payload is not a file"))
    ));
    assert!(matches!(
        canonical(&path, Resolved::NotFound),
        Err(Error::DllNotFound(missing)) if missing == path
    ));
    let denied = || std::io::Error::from_raw_os_error(5);
    assert!(matches!(
        canonical(&path, Resolved::Failed(denied())),
        Err(Error::Io { operation: "canonicalize DLL", path: named, source })
            if named == path && source.raw_os_error() == Some(5)
    ));
    assert!(matches!(
        canonical(&units("a\0b"), Resolved::NotFound),
        Err(Error::UnsupportedPath("embedded NUL"))
    ));
}

#[test]
fn paths_are_compared_by_their_canonical_spelling() {
    assert_eq!(normalized(&units("a"), Some(units("b"))), units("b"));
    assert_eq!(normalized(&units("a"), None), units("a"));
}
