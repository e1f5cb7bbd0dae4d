use mimic::config::{
    detect_cpu_tier, detect_host_arch, expand_variables_str, include_targets, parse_mirrorlist, CpuFeatures, CpuTier,
    IncludedFile, PacmanConfig, Repository,
};

fn names(c: &PacmanConfig) -> Vec<String> {
    c.repositories.iter().map(|r| r.name.clone()).collect()
}

fn repo(name: &str, server: &str) -> Repository {
    Repository { name: name.to_string(), servers: vec![server.to_string()], sig_level: None }
}

#[test]
fn defaults_are_the_standard_paths() {
    let c = PacmanConfig::defaults("x86_64");
    assert_eq!(c.root_dir, "/");
    assert_eq!(c.db_path, "/var/lib/pacman");
    assert_eq!(c.cache_dirs, vec!["/var/cache/pacman/pkg".to_string()]);
    assert_eq!(c.gpg_dir, "/etc/pacman.d/gnupg");
    assert_eq!(c.log_file.as_deref(), Some("/var/log/pacman.log"));
    assert!(c.repositories.is_empty());
}

#[test]
fn variables_expand_in_urls() {
    assert_eq!(
        expand_variables_str("https://geo.mirror.pkgbuild.com/$repo/os/$arch", "core", "x86_64"),
        "https://geo.mirror.pkgbuild.com/core/os/x86_64"
    );
    assert_eq!(expand_variables_str("$repo-$repo", "a", "b"), "a-a");
}

#[test]
fn upstream_repositories_are_appended_once() {
    let mut c = PacmanConfig::defaults("x86_64");
    c.repositories.push(repo("extra", "https://example.org/extra"));
    c.ensure_upstream_repositories();
    assert_eq!(names(&c), vec!["extra", "core", "multilib"]);
    assert_eq!(c.repositories[0].servers, vec!["https://example.org/extra".to_string()]);
    assert_eq!(c.repositories[1].servers, vec!["https://geo.mirror.pkgbuild.com/core/os/x86_64".to_string()]);
    let before = names(&c);
    c.ensure_upstream_repositories();
    assert_eq!(names(&c), before);
}

#[test]
fn upstream_mirror_urls_follow_the_architecture() {
    let mut c = PacmanConfig::defaults("$repo-arch");
    c.ensure_upstream_repositories();
    assert_eq!(names(&c), vec!["core", "extra", "multilib"]);
    assert_eq!(
        c.repositories[2].servers,
        vec!["https://geo.mirror.pkgbuild.com/multilib/os/$repo-arch".to_string()]
    );
}

#[test]
fn cachy_repositories_go_in_front_by_tier() {
    let mut c = PacmanConfig::defaults("x86_64");
    c.ensure_upstream_repositories();
    c.inject_cachy_repositories(CpuTier::V3);
    assert_eq!(
        names(&c),
        vec!["cachyos-v3", "cachyos-extra-v3", "cachyos-core-v3", "cachyos", "core", "extra", "multilib"]
    );
    c.inject_cachy_repositories(CpuTier::V4);
    assert_eq!(names(&c)[0], "cachyos-v3");
    let mut g = PacmanConfig::defaults("x86_64");
    g.inject_cachy_repositories(CpuTier::Generic);
    assert_eq!(names(&g), vec!["cachyos"]);
}

#[test]
fn load_default_applies_overrides() {
    let c = PacmanConfig::load_default(PacmanConfig::defaults("x86_64"), Some("/mnt"), None, true, CpuTier::V3);
    assert_eq!(c.root_dir, "/mnt");
    assert_eq!(c.db_path, "/mnt/var/lib/pacman");
    assert_eq!(names(&c), vec!["core", "extra", "multilib"]);
    let d = PacmanConfig::load_default(PacmanConfig::defaults("x86_64"), Some("/mnt/"), Some("/db"), false, CpuTier::V4);
    assert_eq!(d.root_dir, "/mnt/");
    assert_eq!(d.db_path, "/db");
    assert_eq!(names(&d), vec!["cachyos-v4", "cachyos-extra-v4", "cachyos-core-v4", "cachyos", "core", "extra", "multilib"]);
    let mut base = PacmanConfig::defaults("x86_64");
    base.repositories.push(repo("cachyos", "https://mirror.cachyos.org/repo/x86_64/cachyos"));
    let e = PacmanConfig::load_default(base, None, None, true, CpuTier::V3);
    assert_eq!(names(&e), vec!["core", "extra", "multilib"]);
}

#[test]
fn mirrorlists_name_servers_in_order() {
    let text = "# comment\n\nServer = https://a.example/$repo/os/$arch\n  Server=https://b.example/$repo \n#Server = https://c\n";
    assert_eq!(
        parse_mirrorlist(text, "extra", "x86_64"),
        vec!["https://a.example/extra/os/x86_64".to_string(), "https://b.example/extra".to_string()]
    );
    assert!(parse_mirrorlist("", "core", "x86_64").is_empty());
}

#[test]
fn pacman_conf_text_is_parsed() {
    let conf = "[options]\nRootDir = /chroot\nDBPath = /chroot/db\nCacheDir = /c1 /c2\nArchitecture = auto\nColor\n\n[core]\nServer = https://m/$repo/os/$arch\nSigLevel = Required\n\n[extra]\nInclude = /etc/pacman.d/mirrorlist\n";
    let inc = vec![IncludedFile {
        path: "/etc/pacman.d/mirrorlist".to_string(),
        content: "Server = https://x/$repo/$arch\n".to_string(),
    }];
    let c = PacmanConfig::parse_text(conf, "x86_64", &inc);
    assert_eq!(c.root_dir, "/chroot");
    assert_eq!(c.db_path, "/chroot/db");
    assert_eq!(c.architecture, "x86_64");
    assert_eq!(names(&c), vec!["core", "extra"]);
    assert_eq!(c.repositories[0].servers, vec!["https://m/core/os/x86_64".to_string()]);
    assert_eq!(c.repositories[0].sig_level.as_deref(), Some("Required"));
    assert_eq!(c.repositories[1].servers, vec!["https://x/extra/x86_64".to_string()]);
}

#[test]
fn include_targets_are_listed_in_order() {
    let conf = "[options]\nInclude = /etc/a.conf\n# Include = /etc/skip\n[core]\ninclude=/etc/m1\nINCLUDE =\nServer = x\n  Include = /etc/m2  \n";
    assert_eq!(include_targets(conf), vec!["/etc/a.conf".to_string(), "/etc/m1".to_string(), "/etc/m2".to_string()]);
    assert!(include_targets("").is_empty());
}

#[test]
fn repositories_follow_their_sections() {
    let conf = "[core]\nServer = https://a/$repo\n[empty]\nSigLevel = Never\n[OPTIONS]\nColor\n[extra]\nServer = https://b/$arch\nServer =\nServer = https://c\n";
    let c = PacmanConfig::parse_text(conf, "x86_64", &Vec::new());
    assert_eq!(names(&c), vec!["core", "extra"]);
    assert_eq!(c.repositories[1].servers, vec!["https://b/x86_64".to_string(), "https://c".to_string()]);
    assert!(c.color);
    let arm = PacmanConfig::parse_text("[options]\nArchitecture = aarch64\n[core]\nServer = https://m/$repo/$arch\n", "x86_64", &Vec::new());
    assert_eq!(arm.repositories[0].servers, vec!["https://m/core/aarch64".to_string()]);
}

#[test]
fn cpu_tiers_and_arch() {
    let none = CpuFeatures {
        avx512f: false, avx512bw: false, avx512cd: false, avx512dq: false, avx512vl: false,
        avx2: false, fma: false, bmi1: false, bmi2: false,
    };
    assert_eq!(detect_cpu_tier(&none), CpuTier::Generic);
    let v3 = CpuFeatures { avx2: true, fma: true, bmi1: true, bmi2: true, ..none };
    assert_eq!(detect_cpu_tier(&v3), CpuTier::V3);
    let v4 = CpuFeatures { avx512f: true, avx512bw: true, avx512cd: true, avx512dq: true, avx512vl: true, ..none };
    assert_eq!(detect_cpu_tier(&v4), CpuTier::V4);
    assert_eq!(CpuTier::V3.as_str(), "v3");
    assert_eq!(detect_host_arch("aarch64"), "aarch64");
    assert_eq!(detect_host_arch("riscv64"), "x86_64");
}
