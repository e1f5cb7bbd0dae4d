use mimic::memory_guard::MemoryGuard;
use mimic::forge::MemoryGuard as BuildGuard;
use mimic::forge::{parse_meminfo_kb, BuildReason};

#[test]
fn test_memory_guard_low_ram_budgeting() {
    // ~5.6 GiB (5748 MiB) on 12-thread CPU
    let profile = MemoryGuard::assess_for_ram(5748, 12);
    assert_eq!(profile.safe_jobs, 3);
    assert!(profile.is_low_ram);
    assert!(profile.cflags.contains("-O2 -pipe"));
    assert!(!profile.cflags.contains("-flto"));
    assert!(!profile.cxxflags.contains("-flto"));
    assert_eq!(profile.rustflags, "-C target-cpu=native -C opt-level=2");
}

#[test]
fn test_memory_guard_high_ram_budgeting() {
    // 32 GiB (32768 MiB) on 16-thread CPU
    let profile = MemoryGuard::assess_for_ram(32768, 16);
    assert_eq!(profile.safe_jobs, 15); // capped by nproc - 1
    assert!(!profile.is_low_ram);
    assert!(profile.cflags.contains("-O3 -pipe -fno-plt -flto=auto"));
    assert!(profile.cxxflags.contains("-O3 -pipe -fno-plt -flto=auto"));
    assert_eq!(profile.rustflags, "-C target-cpu=native -C opt-level=3");
}

#[test]
fn test_memory_guard_single_core_clamp() {
    let profile = MemoryGuard::assess_for_ram(2048, 1);
    assert_eq!(profile.safe_jobs, 1);
    assert!(profile.is_low_ram);
}

#[test]
fn test_system_ram_read() {
    let ram = MemoryGuard::read_total_ram_mib(Some("MemTotal:       16303844 kB\nMemFree:         1234567 kB\n"));
    assert!(ram > 0, "System RAM should be greater than 0");
    assert_eq!(ram, 15921);
}

#[test]
fn budget_boundary_at_eight_gib() {
    let at = MemoryGuard::assess_for_ram(8192, 64);
    assert!(at.is_low_ram);
    assert_eq!(at.safe_jobs, 5);
    let above = MemoryGuard::assess_for_ram(8193, 64);
    assert!(!above.is_low_ram);
    assert_eq!(above.tuning_desc, "-march=native -O3 -pipe -flto=auto");
}

#[test]
fn budget_never_zero_and_monotonic() {
    assert_eq!(MemoryGuard::assess_for_ram(0, 8).safe_jobs, 1);
    assert_eq!(MemoryGuard::assess_for_ram(1535, 8).safe_jobs, 1);
    assert_eq!(MemoryGuard::assess_for_ram(3072, 8).safe_jobs, 2);
    assert_eq!(MemoryGuard::assess_for_ram(3072, 0).safe_jobs, 1);
    let mut last = 0;
    for ram in [1000u64, 4000, 9000, 20000, 64000] {
        let j = MemoryGuard::assess_for_ram(ram, 8).safe_jobs;
        assert!(j >= last);
        last = j;
    }
}

#[test]
fn total_ram_from_meminfo_text() {
    let text = "MemFree:  1000 kB\nMemTotal:       16303844 kB\n";
    assert_eq!(MemoryGuard::read_total_ram_mib(Some(text)), 15921);
    assert_eq!(MemoryGuard::read_total_ram_mib(Some("MemTotal: lots kB\n")), 8192);
    assert_eq!(MemoryGuard::read_total_ram_mib(None), 8192);
    let p = MemoryGuard::assess(Some(text), None);
    assert_eq!(p.total_ram_mib, 15921);
    assert_eq!(p.safe_jobs, 3);
    assert!(!p.is_low_ram);
}

#[test]
fn build_guard_reads_meminfo_and_swaps() {
    assert_eq!(parse_meminfo_kb("MemTotal:  2048 kB"), 2048);
    assert_eq!(parse_meminfo_kb("MemTotal:"), 0);
    let meminfo = "MemTotal: 16777216 kB\nMemFree: 1 kB\nMemAvailable: 4194304 kB\n";
    assert_eq!(BuildGuard::read_system_memory(meminfo), (16384, 4096));
    assert_eq!(BuildGuard::read_system_memory(""), (16384, 8192));
    let swaps = "Filename Type Size Used Priority\n/dev/zram0 partition 8G 0 100\n";
    assert_eq!(BuildGuard::detect_swap_and_zram(swaps), (true, false));
    let swaps2 = "Filename Type Size Used Priority\n/swapfile file 8G 0 -2\n";
    assert_eq!(BuildGuard::detect_swap_and_zram(swaps2), (false, true));
    assert_eq!(BuildGuard::detect_swap_and_zram("/swapfile file 8G 0 -2\n"), (false, false));
    let _ = BuildReason::Sufficient;
}

#[test]
fn build_guard_plans_heavy_and_light_builds() {
    assert!(BuildGuard::is_heavy_package("Chromium-Wayland"));
    assert!(!BuildGuard::is_heavy_package("nano"));
    let meminfo = "MemTotal: 33554432 kB\nMemAvailable: 25165824 kB\n";
    let heavy = BuildGuard::assess_build_target("firefox", meminfo, "", Some(16));
    assert_eq!(heavy.avail_ram_mb, 24576);
    assert_eq!(heavy.safe_threads, 9);
    assert!(heavy.use_disk_fallback && heavy.disable_lto);
    assert_eq!(heavy.reason, BuildReason::HeavyBuild);
    assert_eq!(heavy.build_dir, "/var/tmp/mimic-build");
    let light = BuildGuard::assess_build_target("nano", meminfo, "", Some(16));
    assert_eq!(light.safe_threads, 12);
    assert!(!light.use_disk_fallback && !light.disable_lto);
    assert_eq!(light.reason, BuildReason::Sufficient);
    assert_eq!(light.build_dir, "/tmp/mimic-build");
    let small = "MemTotal: 8388608 kB\nMemAvailable: 2097152 kB\n";
    let low = BuildGuard::assess_build_target("nano", small, "", None);
    assert_eq!(low.reason, BuildReason::LowAvailable);
    assert_eq!(low.safe_threads, 1);
}
