use mimic::deb_hunt::{
    clean_members,
    check_ar_names, deb_members, deb_name_from_stem, download_page_url, extract_deb_link, member_kind, mirror_download_path,
    Codec, DebError, DebHunter, DebMember, UpstreamGround,
};
use mimic::elf_scan::{
    dependency_analysis, interpreter_in,
    elf_interpreter, is_elf_magic, missing_libraries, parse_needed, parse_runpath, pending_sonames, ElfError,
    ElfMutator, SonameScanner,
};
use std::io::Write;

fn le16(v: &mut Vec<u8>, x: u16) {
    v.extend_from_slice(&x.to_le_bytes());
}
fn le32(v: &mut Vec<u8>, x: u32) {
    v.extend_from_slice(&x.to_le_bytes());
}
fn le64(v: &mut Vec<u8>, x: u64) {
    v.extend_from_slice(&x.to_le_bytes());
}

fn section(v: &mut Vec<u8>, name: u32, kind: u32, flags: u64, off: u64, size: u64) {
    le32(v, name);
    le32(v, kind);
    le64(v, flags);
    le64(v, 0);
    le64(v, off);
    le64(v, size);
    le32(v, 0);
    le32(v, 0);
    le64(v, 1);
    le64(v, 0);
}

/// A minimal 64-bit little-endian ELF object with a `.interp` section.
fn elf_with_interp(interp: &[u8]) -> Vec<u8> {
    let strtab = b"\0.interp\0.shstrtab\0";
    let interp_off = 64u64;
    let strtab_off = interp_off + interp.len() as u64;
    let mut shoff = strtab_off + strtab.len() as u64;
    shoff = (shoff + 7) / 8 * 8;
    let mut v = vec![0x7f, b'E', b'L', b'F', 2, 1, 1, 0, 0, 0, 0, 0, 0, 0, 0, 0];
    le16(&mut v, 1);
    le16(&mut v, 62);
    le32(&mut v, 1);
    le64(&mut v, 0);
    le64(&mut v, 0);
    le64(&mut v, shoff);
    le32(&mut v, 0);
    le16(&mut v, 64);
    le16(&mut v, 0);
    le16(&mut v, 0);
    le16(&mut v, 64);
    le16(&mut v, 3);
    le16(&mut v, 2);
    v.extend_from_slice(interp);
    v.extend_from_slice(strtab);
    while (v.len() as u64) < shoff {
        v.push(0);
    }
    section(&mut v, 0, 0, 0, 0, 0);
    section(&mut v, 1, 1, 2, interp_off, interp.len() as u64);
    section(&mut v, 9, 3, 0, strtab_off, strtab.len() as u64);
    v
}

#[test]
fn elf_interpreter_is_read_from_the_section() {
    let elf = elf_with_interp(b"/lib/ld-test.so.2\0");
    assert!(is_elf_magic(&elf[..4]));
    assert_eq!(elf_interpreter(&elf), Ok(Some("/lib/ld-test.so.2".to_string())));
    assert_eq!(elf_interpreter(b"not an object file at all"), Err(ElfError::Unparsable));
    assert!(!is_elf_magic(b"MZ\x90\x00"));
}

#[test]
fn dependency_analysis_combines_the_parts() {
    let elf = elf_with_interp(b"/lib/ld-test.so.2\0");
    let needed = vec!["libc.so.6".to_string(), "libfoo.so.1".to_string()];
    let a = dependency_analysis(&elf, needed.clone(), &[true, false], Some(" /opt/lib \n")).unwrap();
    assert_eq!(a.needed_libraries, needed);
    assert_eq!(a.missing_libraries, vec!["libfoo.so.1".to_string()]);
    assert_eq!(a.interpreter.as_deref(), Some("/lib/ld-test.so.2"));
    assert_eq!(a.runpath.as_deref(), Some("/opt/lib"));
    assert!(dependency_analysis(b"junk", vec![], &[], None).is_err());
}

#[test]
fn patchelf_output_is_parsed() {
    assert_eq!(parse_needed("libc.so.6\n\n  libm.so.6  \n"), vec!["libc.so.6".to_string(), "libm.so.6".to_string()]);
    assert_eq!(parse_runpath("  $ORIGIN/lib \n"), Some("$ORIGIN/lib".to_string()));
    assert_eq!(parse_runpath(" \n"), None);
    let needed = vec!["a.so".to_string(), "b.so".to_string(), "c.so".to_string()];
    assert_eq!(missing_libraries(&needed, &[true, false, false]), vec!["b.so".to_string(), "c.so".to_string()]);
    let avail = vec!["a.so".to_string()];
    assert_eq!(pending_sonames(&avail, &needed), vec!["b.so".to_string(), "c.so".to_string()]);
}

#[test]
fn sha256_of_known_input() {
    assert_eq!(
        SonameScanner::compute_sha256(b"abc"),
        "ba7816bf8f01cfea414140de5dae2223b00361a396177a9cb410ff61f20015ad"
    );
    assert!(SonameScanner::is_shared_object_name("libz.so.1"));
    assert!(!SonameScanner::is_shared_object_name("README"));
}

#[test]
fn rpaths_and_interpreter_fix() {
    assert_eq!(ElfMutator::binary_rpath("foo"), "$ORIGIN/../lib/foo:$ORIGIN/lib:/mimic/lib:/usr/lib:/usr/lib64");
    assert_eq!(ElfMutator::library_rpath("foo"), "$ORIGIN:$ORIGIN/../foo:/mimic/lib:/usr/lib:/usr/lib64");
    assert!(ElfMutator::should_fix_interpreter("/lib/ld-musl-x86_64.so.1", true));
    assert!(!ElfMutator::should_fix_interpreter("/lib/ld-musl-x86_64.so.1", false));
    assert!(!ElfMutator::should_fix_interpreter("/nix/store/ld.so", true));
}

fn tar_with(path: &str, data: &[u8]) -> Vec<u8> {
    let mut b = tar::Builder::new(Vec::new());
    let mut h = tar::Header::new_gnu();
    h.set_size(data.len() as u64);
    h.set_mode(0o644);
    h.set_cksum();
    b.append_data(&mut h, path, data).unwrap();
    b.into_inner().unwrap()
}

const CONTROL: &[u8] = b"Package: hello\nVersion: 2.10-3\nArchitecture: amd64\nDescription: example package\n";

#[test]
fn control_members_in_every_codec() {
    let plain = tar_with("./control", CONTROL);
    let want = Ok((
        "hello".to_string(),
        "2.10-3".to_string(),
        "amd64".to_string(),
        "example package".to_string(),
    ));
    assert_eq!(DebHunter::parse_control_tar(&plain, "control.tar"), want);
    let mut gz = flate2::write::GzEncoder::new(Vec::new(), flate2::Compression::default());
    gz.write_all(&plain).unwrap();
    let gz = gz.finish().unwrap();
    assert_eq!(DebHunter::parse_control_tar(&gz, "control.tar.gz"), want);
    let zst = zstd::encode_all(&plain[..], 0).unwrap();
    assert_eq!(DebHunter::parse_control_tar(&zst, "control.tar.zst"), want);
    let mut xz = xz2::write::XzEncoder::new(Vec::new(), 6);
    xz.write_all(&plain).unwrap();
    let xz = xz.finish().unwrap();
    assert_eq!(DebHunter::parse_control_tar(&xz, "control.tar.xz"), want);
    assert_eq!(DebHunter::parse_control_tar(&plain, "control.tar.gz"), Err(DebError::UnreadableMember));
}

#[test]
fn deb_members_are_listed() {
    let control = tar_with("./control", CONTROL);
    let mut b = ar::Builder::new(Vec::new());
    b.append(&ar::Header::new(b"debian-binary".to_vec(), 4), &b"2.0\n"[..]).unwrap();
    b.append(&ar::Header::new(b"control.tar".to_vec(), control.len() as u64), &control[..]).unwrap();
    let deb = b.into_inner().unwrap();
    let ms = deb_members(&deb).unwrap();
    assert_eq!(ms.len(), 2);
    assert_eq!(ms[0].0, "debian-binary");
    assert_eq!(ms[0].1, b"2.0\n".to_vec());
    assert_eq!(ms[1].0, "control.tar");
    assert_eq!(member_kind(&ms[1].0), DebMember::Control);
    assert_eq!(member_kind("data.tar.zst"), DebMember::Data);
    assert_eq!(member_kind("debian-binary"), DebMember::Other);
    assert_eq!(deb_members(b"!<arch>\nbroken"), Err(DebError::CorruptArchive));
}

fn ar_header(name: &str, size: &str) -> Vec<u8> {
    format!("{:<16}{:<12}{:<6}{:<6}{:<8}{:<10}`\n", name, "0", "0", "0", "644", size).into_bytes()
}

#[test]
fn deb_members_refuse_names_outside_the_name_table() {
    let mut gnu = b"!<arch>\n".to_vec();
    gnu.extend(ar_header("/5", "4"));
    gnu.extend(b"abcd");
    assert!(!check_ar_names(&gnu));
    assert_eq!(deb_members(&gnu), Err(DebError::CorruptArchive));

    let mut table = b"!<arch>\n".to_vec();
    table.extend(ar_header("//", "15"));
    table.extend(b"averylongname/\n\n");
    table.extend(ar_header("/0", "2"));
    table.extend(b"ab");
    assert!(check_ar_names(&table));
    let ms = deb_members(&table).unwrap();
    assert_eq!(ms.len(), 1);
    assert_eq!(ms[0].0, "averylongname");
    assert_eq!(ms[0].1, b"ab".to_vec());

    let mut past = b"!<arch>\n".to_vec();
    past.extend(ar_header("//", "15"));
    past.extend(b"averylongname/\n\n");
    past.extend(ar_header("/20", "2"));
    past.extend(b"ab");
    assert!(!check_ar_names(&past));
    assert_eq!(deb_members(&past), Err(DebError::CorruptArchive));
}

#[test]
fn deb_members_read_bsd_names_and_signed_sizes() {
    let mut bsd = b"!<arch>\n".to_vec();
    bsd.extend(ar_header("debian-binary", "4"));
    bsd.extend(b"2.0\n");
    bsd.extend(ar_header("#1/20", "24"));
    bsd.extend(vec![b'x'; 24]);
    assert!(check_ar_names(&bsd));
    let ms = deb_members(&bsd).unwrap();
    assert_eq!(ms.len(), 2);
    assert_eq!(ms[1].0, "x".repeat(20));
    assert_eq!(ms[1].1, b"xxxx".to_vec());

    let mut odd = b"!<arch>\n".to_vec();
    odd.extend(ar_header("a", "3"));
    odd.extend(b"xyz\n");
    odd.extend(ar_header("b", "+2"));
    odd.extend(b"pq");
    assert!(check_ar_names(&odd));
    let ms = deb_members(&odd).unwrap();
    assert_eq!(ms.len(), 2);
    assert_eq!(ms[0].1, b"xyz".to_vec());
    assert_eq!(ms[1].0, "b");
    assert_eq!(ms[1].1, b"pq".to_vec());
}

#[test]
fn codecs_by_member_name() {
    assert_eq!(DebHunter::data_codec("data.tar.zst"), Some(Codec::Zstd));
    assert_eq!(DebHunter::data_codec("data.tar.lz4"), None);
    assert_eq!(DebHunter::control_codec("control.tar.lz4"), Codec::Plain);
}

#[test]
fn debian_download_pages() {
    assert_eq!(UpstreamGround::DebianTrixie.suite(), "trixie");
    assert_eq!(download_page_url("sid", "hello"), "https://packages.debian.org/sid/amd64/hello/download");
    let html = "<li><a href=\"http://ftp.debian.org/debian/pool/main/h/hello/hello_2.10-3_amd64.deb\">ftp.debian.org</a></li>\n";
    assert_eq!(
        extract_deb_link(html),
        Some("http://deb.debian.org/debian/pool/main/h/hello/hello_2.10-3_amd64.deb".to_string())
    );
    assert_eq!(extract_deb_link("<html></html>"), None);
    assert_eq!(mirror_download_path("http://x/a/b.deb", "/tmp/d"), "/tmp/d/b.deb");
    assert_eq!(
        deb_name_from_stem("hello_2.10-3_amd64"),
        ("hello".to_string(), "2.10-3".to_string(), "amd64".to_string())
    );
    assert_eq!(deb_name_from_stem("hello"), ("hello".to_string(), "1.0.0".to_string(), "x86_64".to_string()));
}

#[test]
fn section_tables_and_member_lists() {
    let secs = vec![
        (Some(".interp".to_string()), Some(b"/lib/a.so\0".to_vec())),
        (Some(".text".to_string()), Some(vec![1, 2])),
        (Some(".interp".to_string()), Some(b"/lib/b.so\0\0".to_vec())),
        (None, None),
    ];
    assert_eq!(interpreter_in(&secs), Some("/lib/b.so".to_string()));
    assert_eq!(interpreter_in(&vec![(Some(".text".to_string()), None)]), None);
    let ms = vec![(b"data.tar.xz/    ".to_vec(), vec![9u8])];
    let cleaned = clean_members(&ms);
    assert_eq!(cleaned, vec![("data.tar.xz/".to_string(), vec![9u8])]);
    let entries = vec![
        ("./md5sums".to_string(), b"abc".to_vec()),
        ("./control".to_string(), CONTROL.to_vec()),
    ];
    assert_eq!(
        DebHunter::control_from_entries(&entries),
        Ok(("hello".to_string(), "2.10-3".to_string(), "amd64".to_string(), "example package".to_string()))
    );
    let bad = vec![("control".to_string(), vec![0xff, 0xfe])];
    assert_eq!(DebHunter::control_from_entries(&bad), Err(DebError::UnreadableMember));
}
