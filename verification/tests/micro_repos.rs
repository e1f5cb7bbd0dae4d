use mimic::micro_repo::{
    find_in_packages, packages_from_release, parse_pkg_filename, GitHubRelease, GitHubReleaseAsset,
};

#[test]
fn package_file_names_split_into_parts() {
    assert_eq!(
        parse_pkg_filename("neovim-0.10.1-2-x86_64.pkg.tar.zst"),
        Some(("neovim".to_string(), "0.10.1-2".to_string(), "x86_64".to_string()))
    );
    assert_eq!(
        parse_pkg_filename("lib32-foo-bar-1.0-1-any.pkg.tar.xz"),
        Some(("lib32-foo-bar".to_string(), "1.0-1".to_string(), "any".to_string()))
    );
    assert_eq!(parse_pkg_filename("x86_64.pkg.tar.zst"), None);
    assert_eq!(parse_pkg_filename("a-b.pkg.tar.zst"), None);
}

#[test]
fn round_trip_of_a_built_name() {
    let (name, ver, rel, arch) = ("my-tool", "2.3", "7", "aarch64");
    let f = format!("{}-{}-{}-{}.pkg.tar.zst", name, ver, rel, arch);
    assert_eq!(
        parse_pkg_filename(&f),
        Some((name.to_string(), format!("{}-{}", ver, rel), arch.to_string()))
    );
}

#[test]
fn round_trip_of_a_built_xz_name() {
    let (name, ver, rel, arch) = ("lib32-my-tool", "1:2.3", "1", "x86_64");
    let f = format!("{}-{}-{}-{}.pkg.tar.xz", name, ver, rel, arch);
    assert_eq!(
        parse_pkg_filename(&f),
        Some((name.to_string(), format!("{}-{}", ver, rel), arch.to_string()))
    );
}

#[test]
fn file_names_need_two_dashes() {
    assert_eq!(parse_pkg_filename("foo-1.0.pkg.tar.zst"), None);
    assert_eq!(parse_pkg_filename("foo.pkg.tar.xz"), None);
    assert_eq!(
        parse_pkg_filename("a-b-c.pkg.tar.zst"),
        Some(("a".to_string(), "b".to_string(), "c".to_string()))
    );
}

#[test]
fn release_assets_become_packages() {
    let asset = |n: &str| GitHubReleaseAsset {
        name: n.to_string(),
        browser_download_url: format!("https://dl/{}", n),
        size: 42,
    };
    let rel = GitHubRelease {
        tag_name: "v1".to_string(),
        name: None,
        assets: vec![asset("tool-1.0-1-x86_64.pkg.tar.zst"), asset("README.md"), asset("lib-2-3-any.pkg.tar.xz")],
    };
    let ps = packages_from_release("owner/my-repo", &rel);
    assert_eq!(ps.len(), 2);
    assert_eq!(ps[0].repo_name, "my-repo");
    assert_eq!(ps[0].name, "tool");
    assert_eq!(ps[0].download_url, "https://dl/tool-1.0-1-x86_64.pkg.tar.zst");
    assert_eq!(ps[1].name, "lib");
    assert_eq!(ps[1].version, "2-3");
    let found = find_in_packages(&ps, "lib").unwrap();
    assert_eq!(found.arch, "any");
    assert!(find_in_packages(&ps, "nope").is_none());
}
