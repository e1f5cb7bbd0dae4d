use mimic::arch_hunt::{arch_pkg_info, arch_pkg_tar};
use mimic::aur::snapshot_tar;
use mimic::git_source::compress_package_tar;
use std::io::Write;

fn tar_of(entries: &[(&str, &[u8])]) -> Vec<u8> {
    let mut b = tar::Builder::new(Vec::new());
    for (path, data) in entries {
        let mut h = tar::Header::new_gnu();
        h.set_size(data.len() as u64);
        h.set_mode(0o644);
        h.set_cksum();
        b.append_data(&mut h, path, *data).unwrap();
    }
    b.into_inner().unwrap()
}

#[test]
fn aur_snapshots_are_gunzipped() {
    let tar = tar_of(&[("hello/PKGBUILD", b"pkgname=hello\n")]);
    let mut enc = flate2::write::GzEncoder::new(Vec::new(), flate2::Compression::default());
    enc.write_all(&tar).unwrap();
    let gz = enc.finish().unwrap();
    assert_eq!(snapshot_tar(&gz), Some(tar.clone()));
    assert_eq!(snapshot_tar(&tar), None);
}

#[test]
fn package_archives_round_trip() {
    let tar = tar_of(&[(".PKGINFO", b"pkgname = demo\n"), ("usr/bin/demo", b"\x7fELF")]);
    let zst = compress_package_tar(&tar).unwrap();
    assert_ne!(zst, tar);
    assert_eq!(arch_pkg_tar(&zst), Some(tar.clone()));
    assert_eq!(arch_pkg_tar(b"not zstd"), None);
}

#[test]
fn package_info_comes_from_pkginfo() {
    let pkginfo = b"# generated\npkgname = ffmpeg\npkgver = 2:7.1-3\narch = x86_64\npkgdesc = Complete solution\ndepend = glibc>=2.40\ndepend = libva\n";
    let tar = tar_of(&[("./.PKGINFO", pkginfo), ("usr/lib/libavcodec.so.61", b"x")]);
    let zst = zstd::stream::encode_all(&tar[..], 3).unwrap();
    let info = arch_pkg_info(&zst, "ffmpeg-2:7.1-3-x86_64.pkg.tar").unwrap();
    assert_eq!(info.0, "ffmpeg");
    assert_eq!(info.1, "2:7.1-3");
    assert_eq!(info.2, "x86_64");
    assert_eq!(info.3, "Complete solution");
    assert_eq!(info.4, vec!["glibc".to_string(), "libva".to_string()]);
}

#[test]
fn package_info_falls_back_to_the_stem() {
    let tar = tar_of(&[("usr/lib/libfoo.so.1", b"x")]);
    let zst = zstd::stream::encode_all(&tar[..], 3).unwrap();
    let info = arch_pkg_info(&zst, "libfoo-1.2-1-any.pkg.tar").unwrap();
    assert_eq!(info.0, "libfoo");
    assert_eq!(info.1, "1.2");
    assert_eq!(info.2, "x86_64");
    assert!(info.4.is_empty());
    let bad = tar_of(&[(".PKGINFO", b"\xff\xfe")]);
    let zst = zstd::stream::encode_all(&bad[..], 3).unwrap();
    assert_eq!(arch_pkg_info(&zst, "zz-9-1").unwrap().0, "zz");
    assert_eq!(arch_pkg_info(b"junk", "zz-9-1"), None);
}
