use mimic::memory_guard::MemoryGuard;
use mimic::sandbox::{
    dirs_cache_dir, dirs_local_bin, patch_makepkg, sandbox_paths, BubblewrapSandbox, HostLayout,
};

fn host() -> HostLayout {
    HostLayout {
        cache_dir: "/home/u/.cache".to_string(),
        local_bin: "/home/u/.local/bin".to_string(),
        local_bin_exists: true,
        makepkg_shim_written: false,
        gpg_dir: "/etc/pacman.d/gnupg".to_string(),
        gpg_dir_exists: true,
    }
}

fn pos(args: &[String], a: &str, b: &str) -> Option<usize> {
    args.windows(2).position(|w| w[0] == a && w[1] == b)
}

#[test]
fn container_takes_jobs_from_the_plan() {
    let p = MemoryGuard::assess_for_ram(32768, 16);
    let sb = BubblewrapSandbox::new("pkg", "/b", p, true, true);
    assert_eq!(sb.jobs(), 15);
    let sb = sb.with_jobs(3);
    assert_eq!(sb.jobs(), 3);
    assert_eq!(sb.config.pkg_name, "pkg");
}

#[test]
fn bwrap_arguments_end_with_the_command() {
    let p = MemoryGuard::assess_for_ram(4096, 4);
    let sb = BubblewrapSandbox::new("pkg", "/b", p, true, true);
    let cmd = BubblewrapSandbox::build_command();
    assert_eq!(cmd, vec!["makepkg".to_string(), "-f".to_string(), "--nodeps".to_string()]);
    let binds = vec![("/host/stage".to_string(), "/staging".to_string())];
    let envs = vec![("PKGDEST".to_string(), "/staging".to_string())];
    let args = sb.bwrap_args(&host(), &cmd, &binds, &envs);
    assert_eq!(&args[args.len() - 3..], &cmd[..]);
    assert_eq!(&args[0..3], &["--ro-bind".to_string(), "/usr".to_string(), "/usr".to_string()]);
    assert!(pos(&args, "--bind", "/host/stage").is_some());
    assert!(pos(&args, "PKGDEST", "/staging").is_some());
    assert!(pos(&args, "MAKEFLAGS", "-j2").is_some());
    assert!(pos(&args, "CC", "sccache gcc").is_some());
    assert!(pos(&args, "/home/u/.local/bin", "/usr/local/bin").is_some());
    assert!(pos(&args, "--chdir", "/build").unwrap() < pos(&args, "HOME", "/build").unwrap());
    assert!(args.iter().any(|a| a.ends_with("-fuse-ld=mold")));
}

#[test]
fn script_commands_run_in_sh() {
    assert_eq!(
        BubblewrapSandbox::script_command("echo hi"),
        vec!["/bin/sh".to_string(), "-c".to_string(), "echo hi".to_string()]
    );
}

#[test]
fn host_paths_of_a_build() {
    let p = sandbox_paths("/b", "/home/u/.cache");
    assert_eq!(p.scratch_dir, "/b/.tmp");
    assert_eq!(p.shims_dir, "/b/.tmp/shims");
    assert_eq!(dirs_cache_dir(Some("/home/u")), "/home/u/.cache/mimic");
    assert_eq!(dirs_cache_dir(None), "/var/tmp/mimic-cache");
    assert_eq!(p.host_cache_dir, "/home/u/.cache/sccache");
    assert_eq!(dirs_local_bin(Some("/home/u")), "/home/u/.local/bin");
}

#[test]
fn makepkg_patch_keeps_unrelated_text() {
    assert_eq!(patch_makepkg("echo hello\n"), "echo hello\n");
    assert_eq!(
        patch_makepkg("if (( EUID == 0 )); then\n  error\nfi\n"),
        "if (( EUID == 99999 )); then\n  error\nfi\n"
    );
}
