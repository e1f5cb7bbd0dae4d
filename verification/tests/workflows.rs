use mimic::assimilate::{classify_prey, forge_dir_for, normalize_args, strip_prey_prefix, PreyVector};
use mimic::aur::{build_workspace, info_multi_url, info_url, is_built_package, search_url, snapshot_url, AurRpcResponse};
use mimic::cli::prompt_accepts;
use mimic::git_source::{
    commit_count, detect_toolchain, extract_repo_name, git_version, package_filename, BuildToolchain,
    GitBuildError, GitSourceRunner, RepoMarkers,
};
use mimic::keyring::{
    complete_agent_conf, complete_gpg_conf, key_counts, parse_key_listing, refresh_candidates, select_keyrings,
    KeyValidity, KeyringChoiceError,
};
use mimic::psi::{PsiAction, PsiMonitor};
use mimic::ui::{download_percent, plain_tag, should_render_download};

fn strs(v: &[&str]) -> Vec<String> {
    v.iter().map(|s| s.to_string()).collect()
}

#[test]
fn repository_names_from_urls() {
    assert_eq!(extract_repo_name(" https://github.com/User/NeoVim.git/ "), Ok("neovim".to_string()));
    assert_eq!(extract_repo_name("https://example.org/a/b"), Ok("b".to_string()));
    assert_eq!(extract_repo_name("nohost"), Err(GitBuildError::UnparsableUrl));
    assert_eq!(extract_repo_name("https://x/"), Ok("x".to_string()));
}

#[test]
fn versions_from_git() {
    assert_eq!(commit_count(Some(" 42\n")), 42);
    assert_eq!(commit_count(Some("nope")), 1);
    assert_eq!(commit_count(None), 1);
    assert_eq!(git_version(Some("v1.2-3-gabc\n"), 7, None), "1.2.3.gabc.r7-1");
    assert_eq!(git_version(Some("  "), 7, Some("abc123\n")), "0.1.0.r7.gabc123-1");
    assert_eq!(git_version(None, 0, None), "0.1.0.r0.gg000000-1");
    assert_eq!(package_filename("tool", "1.0-1"), "tool-1.0-1-x86_64.pkg.tar.zst");
}

#[test]
fn toolchains_by_marker() {
    let none = RepoMarkers {
        cargo_toml: false, meson_build: false, src_meson_build: false, cmake_lists: false,
        src_cmake_lists: false, makefile: false, makefile_lower: false, src_makefile: false,
        src_makefile_lower: false,
    };
    assert_eq!(detect_toolchain(&none, 4), Err(GitBuildError::NoBuildSystem));
    let (t, script) = detect_toolchain(&RepoMarkers { makefile_lower: true, ..none }, 4).unwrap();
    assert_eq!(t, BuildToolchain::Make);
    assert!(script.starts_with("make -j4 && "));
    let (t, script) = detect_toolchain(&RepoMarkers { cargo_toml: true, makefile: true, ..none }, 3).unwrap();
    assert_eq!(t, BuildToolchain::Rust);
    assert!(script.contains("cargo build --release --locked -j 3"));
    let (t, script) = detect_toolchain(&RepoMarkers { src_cmake_lists: true, ..none }, 2).unwrap();
    assert_eq!(t, BuildToolchain::CMake);
    assert!(script.contains("-S src"));
    let r = GitSourceRunner::new("/cache".to_string(), 2);
    assert_eq!(r.staging_dir, "/var/tmp/mimic-build/staging");
}

#[test]
fn prey_classification() {
    assert_eq!(classify_prey("foo.deb", None), PreyVector::Deb);
    assert_eq!(classify_prey("https://github.com/a/b", None), PreyVector::Git);
    assert_eq!(classify_prey("mpv", Some("git")), PreyVector::Git);
    assert_eq!(classify_prey("mpv", None), PreyVector::Mirror);
    assert_eq!(strip_prey_prefix("deb:deb:mpv", "deb:"), "mpv");
    assert_eq!(forge_dir_for(1234), "/tmp/mimic-forge_1234");
    assert_eq!(
        normalize_args(&strs(&["mimic", "Deb:", "mpv", "GIT:Foo", "x"])),
        strs(&["mimic", "deb:mpv", "git:foo", "x"])
    );
}

#[test]
fn aur_endpoints() {
    assert_eq!(search_url("vim"), "https://aur.archlinux.org/rpc/v5/search/vim");
    assert_eq!(info_url("vim"), "https://aur.archlinux.org/rpc/v5/info/vim");
    assert_eq!(info_multi_url(&[]), None);
    assert_eq!(
        info_multi_url(&strs(&["a", "b"])),
        Some("https://aur.archlinux.org/rpc/v5/info?arg[]=a&arg[]=b".to_string())
    );
    assert_eq!(snapshot_url("yay"), "https://aur.archlinux.org/cgit/aur.git/snapshot/yay.tar.gz");
    assert_eq!(build_workspace("yay"), "/var/tmp/mimic-build/yay");
    assert!(is_built_package("yay-12.0-1-x86_64.pkg.tar.zst"));
    assert!(!is_built_package("yay-12.0-1-x86_64.pkg.tar.zst.sig"));
    let r = AurRpcResponse {
        version: 5,
        resultcount: 2,
        response_type: "multiinfo".to_string(),
        results: vec![5, 6],
        error: None,
    };
    assert_eq!(r.into_first(), Some(5));
}

#[test]
fn confirmation_prompts() {
    assert!(prompt_accepts("\n"));
    assert!(prompt_accepts(" YES "));
    assert!(prompt_accepts("y"));
    assert!(!prompt_accepts("no"));
}

#[test]
fn pressure_monitor_freezes_and_resumes() {
    let mut m = PsiMonitor::new(500);
    assert_eq!(m.poll_ms(), 500);
    assert_eq!(m.observe(Some(true)), PsiAction::Freeze);
    assert_eq!(m.observe(Some(true)), PsiAction::Wait);
    assert_eq!(m.poll_ms(), 1000);
    assert_eq!(m.finish(), PsiAction::Resume);
    assert_eq!(m.observe(None), PsiAction::Wait);
    assert_eq!(m.observe(Some(false)), PsiAction::Resume);
    assert_eq!(m.finish(), PsiAction::Wait);
}

#[test]
fn download_progress() {
    assert_eq!(download_percent(50, 200), 25);
    assert_eq!(download_percent(10, 0), 0);
    assert!(should_render_download(30, 1, 2));
    assert!(should_render_download(0, 2, 2));
    assert!(!should_render_download(10, 1, 2));
    assert_eq!(plain_tag("Checking Keys"), "checking-keys");
}

#[test]
fn key_listing_is_parsed() {
    let out = "tru::1:1700000000:0:3:1:5\n\
pub:u:4096:1:AAAA1111:1669893366:::u:::scSC:\n\
fpr:::::::::6EFFE9382C1406BB8C71591FF7BFE93A8C440483:\n\
uid:u::::1669893366::HASH::Pacman Keyring Master Key <pacman@localhost>::::::::::0:\n\
pub:f:255:22:BBBB2222:1669893366:::f:::scESC:\n\
fpr:::::::::1111222233334444555566667777888899990000:\n\
uid:f::::::HASH::Dev <dev@example.org>:\n\
pub:r:2048:1:CCCC3333:0:::r:::sc:\n";
    let keys = parse_key_listing(out);
    assert_eq!(keys.len(), 3);
    assert_eq!(keys[0].key_type, "rsa");
    assert_eq!(keys[0].key_length, 4096);
    assert_eq!(keys[0].validity, KeyValidity::Ultimate);
    assert_eq!(keys[0].created.as_deref(), Some("2022-12-01"));
    assert!(keys[0].is_master);
    assert_eq!(keys[1].key_type, "ed25519");
    assert_eq!(keys[1].uids, strs(&["Dev <dev@example.org>"]));
    assert!(!keys[1].is_master);
    assert_eq!(keys[2].validity, KeyValidity::Revoked);
    assert_eq!(keys[2].created, None);
    assert_eq!(keys[2].fingerprint, "");
    assert_eq!(key_counts(&keys), (2, 1));
    assert_eq!(
        refresh_candidates(&keys, Some("6EFFE9382C1406BB8C71591FF7BFE93A8C440483")),
        strs(&["1111222233334444555566667777888899990000", ""])
    );
    assert_eq!(refresh_candidates(&keys, None), strs(&["1111222233334444555566667777888899990000", ""]));
}

#[test]
fn gpg_conf_completion_is_idempotent() {
    let (first, changed) = complete_gpg_conf("");
    assert!(changed);
    assert_eq!(
        first,
        "no-greeting\nno-permission-warning\nkeyserver-options timeout=10\nkeyserver-options import-clean\nkeyserver-options no-self-sigs-only\n"
    );
    assert_eq!(complete_gpg_conf(&first), (first.clone(), false));
    let (partial, changed) = complete_gpg_conf("no-greeting\n  keyserver-options timeout=10  \n");
    assert!(changed);
    assert_eq!(complete_gpg_conf(&partial).1, false);
    let agent = complete_agent_conf("").unwrap();
    assert_eq!(agent, "disable-scdaemon\n");
    assert_eq!(complete_agent_conf(&agent), None);
}

#[test]
fn transaction_plan_totals() {
    let mut plan = mimic::alpm_plan::TransactionPlan::new();
    plan.add_install("a".to_string(), "1".to_string(), 100, 400);
    plan.add_install("b".to_string(), "2".to_string(), 50, 200);
    plan.add_removal("c".to_string(), "3".to_string(), 1000);
    assert_eq!(plan.total_download_size, 150);
    assert_eq!(plan.net_installed_size, -400);
    assert_eq!(plan.to_add.len(), 2);
    assert_eq!(plan.to_remove, vec![("c".to_string(), "3".to_string())]);
}

#[test]
fn sentinel_alternates_over_a_run() {
    let mut m = PsiMonitor::new(1500);
    let readings = [Some(true), Some(true), None, Some(false), Some(false), Some(true)];
    let mut signals = Vec::new();
    for r in readings {
        let a = m.observe(r);
        if a != PsiAction::Wait {
            signals.push(a);
        }
    }
    let f = m.finish();
    if f != PsiAction::Wait {
        signals.push(f);
    }
    assert_eq!(signals, vec![PsiAction::Freeze, PsiAction::Resume, PsiAction::Freeze, PsiAction::Resume]);
}

fn listing(items: &[(&str, bool)]) -> Vec<(String, bool)> {
    items.iter().map(|(n, f)| (n.to_string(), *f)).collect()
}

#[test]
fn keyrings_found_in_the_directory_are_sorted() {
    let es = listing(&[
        ("cachyos.gpg", true),
        ("archlinux.gpg", true),
        ("archlinux-trusted", true),
        ("subdir.gpg", false),
        ("Zeta.gpg", true),
        ("chaotic.gpg.gpg", true),
    ]);
    let chosen = select_keyrings(&[], &[], &es).unwrap();
    assert_eq!(chosen, vec!["Zeta", "archlinux", "cachyos", "chaotic"]);
}

#[test]
fn keyrings_requested_must_have_files() {
    let es = listing(&[("archlinux.gpg", true), ("cachyos.gpg", true)]);
    let want = vec!["cachyos".to_string(), "archlinux".to_string()];
    assert_eq!(select_keyrings(&want, &[true, true], &es), Ok(want.clone()));
    let missing = vec!["archlinux".to_string(), "endeavouros".to_string(), "manjaro".to_string()];
    assert_eq!(
        select_keyrings(&missing, &[true, false, false], &es),
        Err(KeyringChoiceError::Missing("endeavouros".to_string()))
    );
    let nested = vec!["vendor/extra".to_string()];
    assert_eq!(select_keyrings(&nested, &[true], &es), Ok(nested.clone()));
    assert_eq!(select_keyrings(&[], &[], &listing(&[("README", true)])), Err(KeyringChoiceError::NoneFound));
}
