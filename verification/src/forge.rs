//! Build-system detection and per-package memory planning for source builds.

use vstd::prelude::*;
use crate::text::{
    chars_of, contains, contains_str, lines, lines_of, lowercase, nth, nth_word, parse_u64,
    parse_u64_chars, starts_with, starts_with_str, to_lowercase_chars, trim, trim_chars, vecs_view,
    words,
};

verus! {

// ----------------------------------------------------------------------------
// Build-system detection
// ----------------------------------------------------------------------------

/// Which marker files exist at the top of a source tree.
#[derive(Debug, Clone, Copy)]
pub struct ProjectMarkers {
    pub cargo_toml: bool,
    pub meson_build: bool,
    pub cmake_lists: bool,
    pub go_mod: bool,
    pub pyproject_toml: bool,
    pub setup_py: bool,
    pub makefile: bool,
    pub makefile_lower: bool,
}

/// How a source tree is built and installed.
#[derive(Debug, Clone)]
pub struct BuildPlan {
    pub build_type: String,
    pub makedepends: Vec<&'static str>,
    pub build_cmd: String,
    pub install_cmd: String,
}

/// The build systems the detector knows, in the order it looks for them.
pub enum BuildSystem {
    Cargo,
    Meson,
    CMake,
    Go,
    Python,
    Make,
    Generic,
}

/// The first build system whose marker file is present.
pub open spec fn spec_build_system(m: ProjectMarkers) -> BuildSystem {
    if m.cargo_toml {
        BuildSystem::Cargo
    } else if m.meson_build {
        BuildSystem::Meson
    } else if m.cmake_lists {
        BuildSystem::CMake
    } else if m.go_mod {
        BuildSystem::Go
    } else if m.pyproject_toml || m.setup_py {
        BuildSystem::Python
    } else if m.makefile || m.makefile_lower {
        BuildSystem::Make
    } else {
        BuildSystem::Generic
    }
}

impl BuildPlan {
    pub open spec fn deps_view(&self) -> Seq<Seq<char>> {
        self.makedepends@.map_values(|d: &'static str| d@)
    }

    /// The plan holds exactly the given texts.
    pub open spec fn is(
        &self,
        build_type: Seq<char>,
        deps: Seq<Seq<char>>,
        build_cmd: Seq<char>,
        install_cmd: Seq<char>,
    ) -> bool {
        &&& self.build_type@ == build_type
        &&& self.deps_view() == deps
        &&& self.build_cmd@ == build_cmd
        &&& self.install_cmd@ == install_cmd
    }
}

/// The plan for each build system.
pub open spec fn plan_for(p: BuildPlan, s: BuildSystem) -> bool {
    match s {
        BuildSystem::Cargo => p.is(
            "Rust / Cargo"@,
            seq!["cargo"@, "rust"@],
            "cargo build --release --locked"@,
            "find target/release -maxdepth 1 -type f -executable -exec install -Dm755 {} \"$FORGE_DEST/bin/\" \\;"@,
        ),
        BuildSystem::Meson => p.is(
            "Meson & Ninja"@,
            seq!["meson"@, "ninja"@],
            "arch-meson build\nninja -C build"@,
            "DESTDIR=\"$FORGE_DEST\" ninja -C build install"@,
        ),
        BuildSystem::CMake => p.is(
            "CMake"@,
            seq!["cmake"@, "gcc"@],
            "cmake -B build -DCMAKE_BUILD_TYPE=Release -DCMAKE_INSTALL_PREFIX=/usr\ncmake --build build"@,
            "DESTDIR=\"$FORGE_DEST\" cmake --install build"@,
        ),
        BuildSystem::Go => p.is(
            "Go"@,
            seq!["go"@],
            "go build -v -o app_bin"@,
            "install -Dm755 app_bin \"$FORGE_DEST/bin/app_bin\""@,
        ),
        BuildSystem::Python => p.is(
            "Python"@,
            seq!["python-build"@, "python-installer"@, "python-wheel"@, "python-setuptools"@],
            "python -m build --wheel --no-isolation"@,
            "python -m installer --destdir=\"$FORGE_DEST\" dist/*.whl"@,
        ),
        BuildSystem::Make => p.is(
            "GNU Make"@,
            seq!["make"@, "gcc"@],
            "make"@,
            "make DESTDIR=\"$FORGE_DEST\" install 2>/dev/null || find . -maxdepth 1 -type f -executable -exec install -Dm755 {} \"$FORGE_DEST/bin/\" \\;"@,
        ),
        BuildSystem::Generic => p.is(
            "Generic Executable"@,
            seq!["base-devel"@],
            "true"@,
            "find . -maxdepth 1 -type f -executable -exec install -Dm755 {} \"$FORGE_DEST/bin/\" \\;"@,
        ),
    }
}

pub struct BuildDetector;

impl BuildDetector {
    /// The build plan for a source tree with the given marker files.
    pub fn detect(markers: &ProjectMarkers) -> (plan: BuildPlan)
        ensures
            plan_for(plan, spec_build_system(*markers)),
    {
        if markers.cargo_toml {
            let mut deps: Vec<&'static str> = Vec::new();
            deps.push("cargo");
            deps.push("rust");
            assert(deps@.map_values(|d: &'static str| d@) =~= seq!["cargo"@, "rust"@]);
            BuildPlan {
                build_type: String::from_str("Rust / Cargo"),
                makedepends: deps,
                build_cmd: String::from_str("cargo build --release --locked"),
                install_cmd: String::from_str(
                    "find target/release -maxdepth 1 -type f -executable -exec install -Dm755 {} \"$FORGE_DEST/bin/\" \\;",
                ),
            }
        } else if markers.meson_build {
            let mut deps: Vec<&'static str> = Vec::new();
            deps.push("meson");
            deps.push("ninja");
            assert(deps@.map_values(|d: &'static str| d@) =~= seq!["meson"@, "ninja"@]);
            BuildPlan {
                build_type: String::from_str("Meson & Ninja"),
                makedepends: deps,
                build_cmd: String::from_str("arch-meson build\nninja -C build"),
                install_cmd: String::from_str("DESTDIR=\"$FORGE_DEST\" ninja -C build install"),
            }
        } else if markers.cmake_lists {
            let mut deps: Vec<&'static str> = Vec::new();
            deps.push("cmake");
            deps.push("gcc");
            assert(deps@.map_values(|d: &'static str| d@) =~= seq!["cmake"@, "gcc"@]);
            BuildPlan {
                build_type: String::from_str("CMake"),
                makedepends: deps,
                build_cmd: String::from_str(
                    "cmake -B build -DCMAKE_BUILD_TYPE=Release -DCMAKE_INSTALL_PREFIX=/usr\ncmake --build build",
                ),
                install_cmd: String::from_str("DESTDIR=\"$FORGE_DEST\" cmake --install build"),
            }
        } else if markers.go_mod {
            let mut deps: Vec<&'static str> = Vec::new();
            deps.push("go");
            assert(deps@.map_values(|d: &'static str| d@) =~= seq!["go"@]);
            BuildPlan {
                build_type: String::from_str("Go"),
                makedepends: deps,
                build_cmd: String::from_str("go build -v -o app_bin"),
                install_cmd: String::from_str("install -Dm755 app_bin \"$FORGE_DEST/bin/app_bin\""),
            }
        } else if markers.pyproject_toml || markers.setup_py {
            let mut deps: Vec<&'static str> = Vec::new();
            deps.push("python-build");
            deps.push("python-installer");
            deps.push("python-wheel");
            deps.push("python-setuptools");
            assert(deps@.map_values(|d: &'static str| d@) =~= seq!["python-build"@, "python-installer"@, "python-wheel"@, "python-setuptools"@]);
            BuildPlan {
                build_type: String::from_str("Python"),
                makedepends: deps,
                build_cmd: String::from_str("python -m build --wheel --no-isolation"),
                install_cmd: String::from_str(
                    "python -m installer --destdir=\"$FORGE_DEST\" dist/*.whl",
                ),
            }
        } else if markers.makefile || markers.makefile_lower {
            let mut deps: Vec<&'static str> = Vec::new();
            deps.push("make");
            deps.push("gcc");
            assert(deps@.map_values(|d: &'static str| d@) =~= seq!["make"@, "gcc"@]);
            BuildPlan {
                build_type: String::from_str("GNU Make"),
                makedepends: deps,
                build_cmd: String::from_str("make"),
                install_cmd: String::from_str(
                    "make DESTDIR=\"$FORGE_DEST\" install 2>/dev/null || find . -maxdepth 1 -type f -executable -exec install -Dm755 {} \"$FORGE_DEST/bin/\" \\;",
                ),
            }
        } else {
            let mut deps: Vec<&'static str> = Vec::new();
            deps.push("base-devel");
            assert(deps@.map_values(|d: &'static str| d@) =~= seq!["base-devel"@]);
            BuildPlan {
                build_type: String::from_str("Generic Executable"),
                makedepends: deps,
                build_cmd: String::from_str("true"),
                install_cmd: String::from_str(
                    "find . -maxdepth 1 -type f -executable -exec install -Dm755 {} \"$FORGE_DEST/bin/\" \\;",
                ),
            }
        }
    }
}

// ----------------------------------------------------------------------------
// Per-package memory planning
// ----------------------------------------------------------------------------

/// Why a build was given the storage location it got.
#[derive(Debug, Clone, Copy, PartialEq, Eq, Structural)]
pub enum BuildReason {
    /// The package is one of the known heavy builds.
    HeavyBuild,
    /// Less than 6 GiB of RAM is available.
    LowAvailable,
    /// A machine of at most 16 GiB has less than half of its RAM available.
    UnderHalfAvailable,
    /// Enough memory is free to build in tmpfs.
    Sufficient,
}

/// The resource plan for building one package.
#[derive(Debug, Clone)]
pub struct MemoryProfile {
    pub total_ram_mb: u64,
    pub avail_ram_mb: u64,
    pub has_zram: bool,
    pub has_swap: bool,
    pub is_heavy_pkg: bool,
    pub use_disk_fallback: bool,
    pub build_dir: String,
    pub safe_threads: usize,
    pub disable_lto: bool,
    pub reason: BuildReason,
}

pub struct MemoryGuard;

/// The number in KiB on a `/proc/meminfo` line (its second word), or 0.
pub open spec fn meminfo_kb(line: Seq<char>) -> u64 {
    match nth(words(line), 1) {
        Some(w) => match parse_u64(w) {
            Some(v) => v,
            None => 0,
        },
        None => 0,
    }
}

/// The second word of a `/proc/meminfo` line as a number of KiB; 0 when it is
/// missing or not a number.
pub fn parse_meminfo_kb(line: &str) -> (kb: u64)
    ensures
        kb == meminfo_kb(line@),
{
    let v = chars_of(line);
    match nth_word(&v, 1) {
        Some(w) => match parse_u64_chars(&w) {
            Some(n) => n,
            None => 0,
        },
        None => 0,
    }
}

/// The last `MemTotal:` and `MemAvailable:` figures of `ls`, starting from `(total, avail)`.
pub open spec fn mem_scan(ls: Seq<Seq<char>>, total: u64, avail: u64) -> (u64, u64)
    decreases ls.len(),
{
    if ls.len() == 0 {
        (total, avail)
    } else {
        let l = ls[0];
        if starts_with(l, "MemTotal:"@) {
            mem_scan(ls.drop_first(), meminfo_kb(l), avail)
        } else if starts_with(l, "MemAvailable:"@) {
            mem_scan(ls.drop_first(), total, meminfo_kb(l))
        } else {
            mem_scan(ls.drop_first(), total, avail)
        }
    }
}

/// Total and available RAM in MiB from the text of `/proc/meminfo`: 16 GiB when
/// no total is given, half the total when no available figure is.
pub open spec fn spec_system_memory(meminfo: Seq<char>) -> (u64, u64) {
    let (t, a) = mem_scan(lines(meminfo), 0, 0);
    let total_kb: u64 = if t == 0 { 16777216 } else { t };
    let avail_kb: u64 = if a == 0 { (total_kb / 2) as u64 } else { a };
    ((total_kb / 1024) as u64, (avail_kb / 1024) as u64)
}

/// A `/proc/swaps` line that names a zram device.
pub open spec fn is_zram_line(l: Seq<char>) -> bool {
    contains(l, "/dev/zram"@) || contains(l, "zram"@)
}

/// Whether `/proc/swaps` (after its header line) lists a zram device, and
/// whether it lists any other swap area.
pub open spec fn spec_swap_and_zram(swaps: Seq<char>) -> (bool, bool) {
    let ls = lines(swaps);
    (
        exists|k: int| 1 <= k < ls.len() && is_zram_line(#[trigger] ls[k]),
        exists|k: int| 1 <= k < ls.len() && !is_zram_line(#[trigger] ls[k]) && trim(ls[k]).len() > 0,
    )
}

/// The builds known to need multi-GB scratch and link space.
pub open spec fn heavy_targets() -> Seq<Seq<char>> {
    seq![
        "chromium"@, "firefox"@, "rust"@, "rust-nightly"@, "rust-analyzer"@, "llvm"@,
        "clang"@, "gcc"@, "webkit2gtk"@, "qt6-webengine"@, "qt5-webengine"@, "electron"@,
        "libreoffice"@, "unreal-engine"@, "godot"@, "blender"@, "linux"@, "linux-cachyos"@,
        "linux-zen"@, "linux-lts"@, "ceph"@, "v8"@,
    ]
}

/// The lowercased name contains one of the heavy build names.
pub open spec fn spec_is_heavy(name: Seq<char>) -> bool {
    exists|k: int| 0 <= k < heavy_targets().len() && contains(lowercase(name), #[trigger] heavy_targets()[k])
}

/// `x.clamp(1, hi)`.
pub open spec fn clamp1(x: int, hi: int) -> int {
    if x < 1 { 1 } else if x > hi { hi } else { x }
}

impl MemoryGuard {
    /// Total and available RAM in MiB from the text of `/proc/meminfo` (empty when
    /// it cannot be read).
    pub fn read_system_memory(meminfo: &str) -> (r: (u64, u64))
        ensures
            r == spec_system_memory(meminfo@),
    {
        let v = chars_of(meminfo);
        let ls = lines_of(&v);
        let mut total_kb: u64 = 0;
        let mut avail_kb: u64 = 0;
        let mut i: usize = 0;
        assert(vecs_view(ls@).skip(0) == vecs_view(ls@));
        while i < ls.len()
            invariant
                i <= ls.len(),
                vecs_view(ls@) == lines(meminfo@),
                mem_scan(lines(meminfo@), 0, 0) == mem_scan(
                    vecs_view(ls@).skip(i as int),
                    total_kb,
                    avail_kb,
                ),
            decreases ls.len() - i,
        {
            let ghost rest = vecs_view(ls@).skip(i as int);
            assert(rest[0] == ls@[i as int]@);
            assert(rest.drop_first() == vecs_view(ls@).skip(i + 1));
            let line = &ls[i];
            if starts_with_str(line, "MemTotal:") {
                let s = crate::text::string_of(line);
                total_kb = parse_meminfo_kb(s.as_str());
            } else if starts_with_str(line, "MemAvailable:") {
                let s = crate::text::string_of(line);
                avail_kb = parse_meminfo_kb(s.as_str());
            }
            i = i + 1;
        }
        assert(vecs_view(ls@).skip(i as int) == Seq::<Seq<char>>::empty());
        if total_kb == 0 {
            total_kb = 16777216;
        }
        if avail_kb == 0 {
            avail_kb = total_kb / 2;
        }
        (total_kb / 1024, avail_kb / 1024)
    }

    /// Whether `/proc/swaps` (empty when it cannot be read) lists a zram device,
    /// and whether it lists any other swap area.
    pub fn detect_swap_and_zram(swaps: &str) -> (r: (bool, bool))
        ensures
            r == spec_swap_and_zram(swaps@),
    {
        let v = chars_of(swaps);
        let ls = lines_of(&v);
        let ghost sl = lines(swaps@);
        let mut has_zram = false;
        let mut has_swap = false;
        let mut i: usize = 1;
        while i < ls.len()
            invariant
                1 <= i,
                vecs_view(ls@) == sl,
                sl == lines(swaps@),
                has_zram == exists|k: int| 1 <= k < i && k < sl.len() && is_zram_line(#[trigger] sl[k]),
                has_swap == exists|k: int|
                    1 <= k < i && k < sl.len() && !is_zram_line(#[trigger] sl[k]) && trim(sl[k]).len() > 0,
            decreases ls.len() - i,
        {
            let line = &ls[i];
            assert(sl[i as int] == line@);
            if contains_str(line, "/dev/zram") || contains_str(line, "zram") {
                has_zram = true;
            } else {
                let t = trim_chars(line);
                if t.len() > 0 {
                    has_swap = true;
                }
            }
            i = i + 1;
        }
        (has_zram, has_swap)
    }

    /// Whether `pkg_name`, lowercased, contains the name of a known heavy build.
    pub fn is_heavy_package(pkg_name: &str) -> (b: bool)
        ensures
            b == spec_is_heavy(pkg_name@),
    {
        let v = chars_of(pkg_name);
        let lower = to_lowercase_chars(&v);
        let targets: [&str; 22] = [
            "chromium", "firefox", "rust", "rust-nightly", "rust-analyzer", "llvm", "clang", "gcc",
            "webkit2gtk", "qt6-webengine", "qt5-webengine", "electron", "libreoffice",
            "unreal-engine", "godot", "blender", "linux", "linux-cachyos", "linux-zen", "linux-lts",
            "ceph", "v8",
        ];
        assert(targets@.map_values(|t: &str| t@) =~= heavy_targets());
        let mut k: usize = 0;
        while k < 22
            invariant
                k <= 22,
                lower@ == lowercase(pkg_name@),
                targets@.map_values(|t: &str| t@) == heavy_targets(),
                forall|j: int| 0 <= j < k ==> !contains(lower@, #[trigger] heavy_targets()[j]),
            decreases 22 - k,
        {
            assert(targets@[k as int]@ == heavy_targets()[k as int]);
            if contains_str(&lower, targets[k]) {
                return true;
            }
            k = k + 1;
        }
        false
    }

    /// The memory plan for building `pkg_name`, from the texts of `/proc/meminfo`
    /// and `/proc/swaps` (empty when unreadable) and the processor count the
    /// system reports (4 when it reports none).
    pub fn assess_build_target(
        pkg_name: &str,
        meminfo: &str,
        swaps: &str,
        reported_nproc: Option<usize>,
    ) -> (p: MemoryProfile)
        requires
            reported_nproc != Some(0usize),
        ensures
            (p.total_ram_mb, p.avail_ram_mb) == spec_system_memory(meminfo@),
            (p.has_zram, p.has_swap) == spec_swap_and_zram(swaps@),
            p.is_heavy_pkg == spec_is_heavy(pkg_name@),
            p.safe_threads == clamp1(
                if p.is_heavy_pkg {
                    p.avail_ram_mb / 2560
                } else if p.has_zram {
                    p.avail_ram_mb / 1536
                } else if p.has_swap {
                    p.avail_ram_mb / 1792
                } else {
                    p.avail_ram_mb / 2048
                } as int,
                match reported_nproc {
                    Some(n) => n as int,
                    None => 4,
                },
            ),
            p.disable_lto == (p.is_heavy_pkg || p.avail_ram_mb <= 8192),
            p.use_disk_fallback == (p.is_heavy_pkg || p.avail_ram_mb < 6144 || (p.total_ram_mb
                <= 16384 && p.avail_ram_mb < p.total_ram_mb / 2)),
            p.reason == (if p.is_heavy_pkg {
                BuildReason::HeavyBuild
            } else if p.avail_ram_mb < 6144 {
                BuildReason::LowAvailable
            } else if p.total_ram_mb <= 16384 && p.avail_ram_mb < p.total_ram_mb / 2 {
                BuildReason::UnderHalfAvailable
            } else {
                BuildReason::Sufficient
            }),
            p.build_dir@ == (if p.use_disk_fallback {
                "/var/tmp/mimic-build"@
            } else {
                "/tmp/mimic-build"@
            }),
    {
        let (total_ram_mb, avail_ram_mb) = Self::read_system_memory(meminfo);
        let (has_zram, has_swap) = Self::detect_swap_and_zram(swaps);
        let is_heavy_pkg = Self::is_heavy_package(pkg_name);
        let nproc: usize = match reported_nproc {
            Some(n) => n,
            None => 4,
        };
        let per_thread_mb: u64 = if has_zram {
            1536
        } else if has_swap {
            1792
        } else {
            2048
        };
        let by_ram: u64 = if is_heavy_pkg {
            avail_ram_mb / 2560
        } else {
            avail_ram_mb / per_thread_mb
        };
        let safe_threads: usize = if by_ram < 1 {
            1
        } else if by_ram > nproc as u64 {
            nproc
        } else {
            by_ram as usize
        };
        let disable_lto = is_heavy_pkg || avail_ram_mb <= 8192;
        let under_half = total_ram_mb <= 16384 && avail_ram_mb < total_ram_mb / 2;
        let use_disk_fallback = is_heavy_pkg || avail_ram_mb < 6144 || under_half;
        let reason = if is_heavy_pkg {
            BuildReason::HeavyBuild
        } else if avail_ram_mb < 6144 {
            BuildReason::LowAvailable
        } else if under_half {
            BuildReason::UnderHalfAvailable
        } else {
            BuildReason::Sufficient
        };
        let build_dir = if use_disk_fallback {
            String::from_str("/var/tmp/mimic-build")
        } else {
            String::from_str("/tmp/mimic-build")
        };
        MemoryProfile {
            total_ram_mb,
            avail_ram_mb,
            has_zram,
            has_swap,
            is_heavy_pkg,
            use_disk_fallback,
            build_dir,
            safe_threads,
            disable_lto,
            reason,
        }
    }
}

} // verus!
