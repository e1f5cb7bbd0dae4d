//! The advisor: build-failure triage from compiler logs, package explanations,
//! and the request/response protocol of its socket.

use vstd::prelude::*;
use crate::config::{opt_view, strings_view};
use crate::text::{
    chars_of, contains, contains_str, eq_chars, lowercase, slice_chars, starts_with,
    starts_with_str, string_of, to_lowercase_chars, vecs_view,
};

verus! {

// ----------------------------------------------------------------------------
// Protocol
// ----------------------------------------------------------------------------

/// A request to the advisor.
#[derive(Debug, Clone)]
pub enum BrainRequest {
    Ping,
    Why { package: String },
    Diagnose {
        package: String,
        error_log: String,
        compiler: Option<String>,
        flags: Option<String>,
    },
}

/// The advisor's answer.
#[derive(Debug, Clone)]
pub enum BrainResponse {
    Pong { version: String, status: String },
    Why {
        package: String,
        summary: String,
        role: String,
        key_insights: Vec<String>,
        alternatives: Vec<String>,
        archwiki_topic: Option<String>,
    },
    Diagnose {
        package: String,
        root_cause: String,
        explanation: String,
        suggested_fixes: Vec<String>,
        suggested_flags: Option<String>,
    },
    Error { message: String },
}

/// The plain contents of a [`BrainResponse`].
#[verifier::ext_equal]
pub enum ResponseV {
    Pong { version: Seq<char>, status: Seq<char> },
    Why {
        package: Seq<char>,
        summary: Seq<char>,
        role: Seq<char>,
        key_insights: Seq<Seq<char>>,
        alternatives: Seq<Seq<char>>,
        archwiki_topic: Option<Seq<char>>,
    },
    Diagnose {
        package: Seq<char>,
        root_cause: Seq<char>,
        explanation: Seq<char>,
        suggested_fixes: Seq<Seq<char>>,
        suggested_flags: Option<Seq<char>>,
    },
    Error { message: Seq<char> },
}

impl View for BrainResponse {
    type V = ResponseV;

    open spec fn view(&self) -> ResponseV {
        match self {
            BrainResponse::Pong { version, status } => ResponseV::Pong {
                version: version@,
                status: status@,
            },
            BrainResponse::Why {
                package,
                summary,
                role,
                key_insights,
                alternatives,
                archwiki_topic,
            } => ResponseV::Why {
                package: package@,
                summary: summary@,
                role: role@,
                key_insights: strings_view(key_insights@),
                alternatives: strings_view(alternatives@),
                archwiki_topic: opt_view(*archwiki_topic),
            },
            BrainResponse::Diagnose {
                package,
                root_cause,
                explanation,
                suggested_fixes,
                suggested_flags,
            } => ResponseV::Diagnose {
                package: package@,
                root_cause: root_cause@,
                explanation: explanation@,
                suggested_fixes: strings_view(suggested_fixes@),
                suggested_flags: opt_view(*suggested_flags),
            },
            BrainResponse::Error { message } => ResponseV::Error { message: message@ },
        }
    }
}

fn s(t: &str) -> (r: String)
    ensures
        r@ == t@,
{
    t.to_owned()
}

fn cat3(a: &str, b: &str, c: &str) -> (r: String)
    ensures
        r@ == a@ + b@ + c@,
{
    let mut v = chars_of(a);
    crate::text::append_str(&mut v, b);
    crate::text::append_str(&mut v, c);
    string_of(&v)
}

fn cat5(a: &str, b: &str, c: &str, d: &str, e: &str) -> (r: String)
    ensures
        r@ == a@ + b@ + c@ + d@ + e@,
{
    let mut v = chars_of(a);
    crate::text::append_str(&mut v, b);
    crate::text::append_str(&mut v, c);
    crate::text::append_str(&mut v, d);
    crate::text::append_str(&mut v, e);
    string_of(&v)
}

fn strings(parts: &[String]) -> (r: Vec<String>)
    ensures
        strings_view(r@) == strings_view(parts@),
{
    let mut r: Vec<String> = Vec::new();
    let mut i: usize = 0;
    while i < parts.len()
        invariant
            i <= parts.len(),
            strings_view(r@) == strings_view(parts@.take(i as int)),
        decreases parts.len() - i,
    {
        let ghost b = strings_view(r@);
        r.push(parts[i].clone());
        assert(strings_view(r@) == b.push(parts@[i as int]@));
        assert(strings_view(parts@.take(i + 1)) == strings_view(parts@.take(i as int)).push(
            parts@[i as int]@,
        ));
        i = i + 1;
    }
    assert(parts@.take(i as int) == parts@);
    r
}

// ----------------------------------------------------------------------------
// Regular expressions
// ----------------------------------------------------------------------------

/// What the leftmost match of the regular expression `pattern` in `text` gives
/// for its first group: `None` when nothing matches (or the pattern does not
/// compile), `Some(None)` when the group took no part in the match.
pub uninterp spec fn regex_group1(pattern: Seq<char>, text: Seq<char>) -> Option<Option<Seq<char>>>;

/// Compiles `pattern` with `regex::Regex::new` and takes the first group of the
/// leftmost match of `Regex::captures` in `text`; the result is named by
/// [`regex_group1`].
#[verifier::external_body]
fn first_group(pattern: &str, text: &str) -> (r: Option<Option<String>>)
    ensures
        match r {
            Some(g) => regex_group1(pattern@, text@) == Some(opt_view(g)),
            None => regex_group1(pattern@, text@).is_none(),
        },
{
    match regex::Regex::new(pattern) {
        Ok(re) => re.captures(text).map(|c| c.get(1).map(|m| m.as_str().to_string())),
        Err(_) => None,
    }
}

// ----------------------------------------------------------------------------
// Build-failure triage
// ----------------------------------------------------------------------------

/// A missing C/C++ header.
pub open spec fn missing_header_re() -> Seq<char> {
    "fatal error:\\s*([a-zA-Z0-9_\\-/\\.]+):\\s*No such file or directory"@
}

/// A missing pkg-config module.
pub open spec fn pkg_config_re() -> Seq<char> {
    "(?:Package|dependency)\\s*['`]?([a-zA-Z0-9_\\-\\.\\+]+)['`]?\\s*(?:not found|was not found)"@
}

/// A missing CMake package configuration.
pub open spec fn cmake_pkg_re() -> Seq<char> {
    "Could not find a package configuration file provided by \"([a-zA-Z0-9_\\-]+)\""@
}

/// A warning promoted to an error.
pub open spec fn werror_re() -> Seq<char> {
    "error:\\s*.*\\s*\\[-Werror(?:=([a-zA-Z0-9_\\-]+))?\\]"@
}

/// An unresolved linker symbol.
pub open spec fn undefined_ref_re() -> Seq<char> {
    "undefined reference to `([a-zA-Z0-9_]+)'"@
}

/// An unresolved Rust item.
pub open spec fn rust_unresolved_re() -> Seq<char> {
    "error\\[E[0-9]+\\]:\\s*cannot find (?:type|value|function|module) `([a-zA-Z0-9_]+)`"@
}

/// Matches a build log against the failure patterns in turn.
#[derive(Debug, Clone)]
pub struct TriageEngine {
    pub missing_header_re: &'static str,
    pub pkg_config_re: &'static str,
    pub cmake_pkg_re: &'static str,
    pub werror_re: &'static str,
    pub undefined_ref_re: &'static str,
    pub rust_unresolved_re: &'static str,
}

/// The engine holds the failure patterns.
pub open spec fn engine_ok(e: TriageEngine) -> bool {
    &&& e.missing_header_re@ == missing_header_re()
    &&& e.pkg_config_re@ == pkg_config_re()
    &&& e.cmake_pkg_re@ == cmake_pkg_re()
    &&& e.werror_re@ == werror_re()
    &&& e.undefined_ref_re@ == undefined_ref_re()
    &&& e.rust_unresolved_re@ == rust_unresolved_re()
}

/// The package that most likely provides a header.
pub open spec fn header_package(h: Seq<char>) -> Seq<char> {
    if contains(h, "openssl/"@) {
        "openssl"@
    } else if contains(h, "wayland-"@) {
        "wayland"@
    } else if contains(h, "vulkan/"@) {
        "vulkan-headers"@
    } else if contains(h, "X11/"@) {
        "libx11"@
    } else if contains(h, "zlib.h"@) {
        "zlib"@
    } else if contains(h, "glib.h"@) || contains(h, "glib/"@) {
        "glib2"@
    } else if contains(h, "curl/"@) {
        "curl"@
    } else if contains(h, "sqlite3.h"@) {
        "sqlite"@
    } else if contains(h, "alsa/"@) {
        "alsa-lib"@
    } else if contains(h, "pulse/"@) {
        "libpulse"@
    } else if contains(h, "pipewire/"@) {
        "pipewire"@
    } else if contains(h, "systemd/"@) {
        "systemd-libs"@
    } else if contains(h, "pcre2.h"@) {
        "pcre2"@
    } else if contains(h, "ffi.h"@) {
        "libffi"@
    } else if contains(h, "zstd.h"@) {
        "zstd"@
    } else {
        "base-devel"@
    }
}

/// The library flag and its description for an unresolved symbol.
pub open spec fn symbol_library(sym: Seq<char>) -> (Seq<char>, Seq<char>) {
    if starts_with(sym, "cos"@) || starts_with(sym, "sin"@) || starts_with(sym, "pow"@) {
        ("-lm"@, "Standard C Math Library"@)
    } else if starts_with(sym, "pthread_"@) {
        ("-lpthread"@, "POSIX Threads Library"@)
    } else if starts_with(sym, "dlopen"@) || starts_with(sym, "dlsym"@) {
        ("-ldl"@, "Dynamic Linking Library"@)
    } else {
        ("-Wl,--no-as-needed"@, "Linker symbol resolution"@)
    }
}

/// The text of a captured group, empty when the group took no part.
pub open spec fn group_text(g: Option<Seq<char>>) -> Seq<char> {
    match g {
        Some(t) => t,
        None => seq![],
    }
}

pub open spec fn diagnose_missing_header(p: Seq<char>, h: Seq<char>) -> ResponseV {
    let pkg = header_package(h);
    ResponseV::Diagnose {
        package: p,
        root_cause: "Missing C/C++ development header: <"@ + h + ">"@,
        explanation: "The compiler failed because required C/C++ header '"@ + h
            + "' was not found in system include paths (/usr/include)."@,
        suggested_fixes: seq![
            "Install '"@ + pkg + "' via 'mimic install "@ + pkg + "'"@,
            "Add '"@ + pkg + "' to 'makedepends=(...)' in PKGBUILD"@,
            "Verify /usr/include is properly mounted in hermetic sandbox"@,
        ],
        suggested_flags: None,
    }
}

pub open spec fn diagnose_pkg_config(p: Seq<char>, n: Seq<char>) -> ResponseV {
    ResponseV::Diagnose {
        package: p,
        root_cause: "Missing pkg-config metadata module: '"@ + n + "'"@,
        explanation: "The build system searched for '"@ + n
            + ".pc' using pkgconf/pkg-config, but the library development files are missing."@,
        suggested_fixes: seq![
            "Install '"@ + n + "' or corresponding devel package: 'mimic install "@ + n + "'"@,
            "Add '"@ + n + "' to makedepends in PKGBUILD"@,
        ],
        suggested_flags: None,
    }
}

pub open spec fn diagnose_cmake(p: Seq<char>, n: Seq<char>) -> ResponseV {
    let l = lowercase(n);
    ResponseV::Diagnose {
        package: p,
        root_cause: "Missing CMake module: '"@ + n + "Config.cmake'"@,
        explanation: "CMake find_package("@ + n
            + ") failed because the package configuration files are not installed in /usr/lib/cmake or /usr/share/cmake."@,
        suggested_fixes: seq![
            "Install '"@ + l + "' development package via 'mimic install "@ + l + "'"@,
            "Add '"@ + l + "' to makedepends in PKGBUILD"@,
        ],
        suggested_flags: None,
    }
}

pub open spec fn diagnose_werror(p: Seq<char>, w: Seq<char>) -> ResponseV {
    ResponseV::Diagnose {
        package: p,
        root_cause: "Compiler warning treated as error (-Werror="@ + w + ")"@,
        explanation: "The codebase was compiled with -Werror, causing newer GCC/Clang compilers with stricter checks to fail the build."@,
        suggested_fixes: seq![
            "Append '-Wno-error' to CFLAGS/CXXFLAGS"@,
            "Add 'export CFLAGS=\"$CFLAGS -Wno-error -Wno-"@ + w + "\"' to build() in PKGBUILD"@,
        ],
        suggested_flags: Some("-Wno-error"@),
    }
}

pub open spec fn diagnose_undefined(p: Seq<char>, sym: Seq<char>) -> ResponseV {
    let (flag, note) = symbol_library(sym);
    ResponseV::Diagnose {
        package: p,
        root_cause: "Unresolved linker symbol: '"@ + sym + "' ("@ + note + ")"@,
        explanation: "The linker (mold/ld) failed to find the definition for '"@ + sym
            + "' during linking stage."@,
        suggested_fixes: seq![
            "Append '"@ + flag + "' to LDFLAGS"@,
            "If building with LTO, try disabling -flto for this package"@,
        ],
        suggested_flags: Some(flag),
    }
}

pub open spec fn diagnose_rust(p: Seq<char>, sym: Seq<char>) -> ResponseV {
    ResponseV::Diagnose {
        package: p,
        root_cause: "Rust compilation error: unresolved identifier '"@ + sym + "'"@,
        explanation: "The Rust crate failed to compile due to missing dependencies or rustc version incompatibility."@,
        suggested_fixes: seq![
            "Ensure rust/cargo toolchain is up to date via 'mimic install rust cargo'"@,
            "Check if crate requires a newer MSRV (Minimum Supported Rust Version)"@,
        ],
        suggested_flags: None,
    }
}

pub open spec fn diagnose_unknown(p: Seq<char>) -> ResponseV {
    ResponseV::Diagnose {
        package: p,
        root_cause: "Unrecognized compilation or script failure"@,
        explanation: "The build failed during execution of makepkg. Review the build logs above for details."@,
        suggested_fixes: seq![
            "Check the upstream repository issue tracker for known build issues"@,
            "Try building without aggressive compiler flags (e.g. without LTO or -march=native)"@,
            "Inspect the PKGBUILD prepare() and build() functions"@,
        ],
        suggested_flags: None,
    }
}

/// The diagnosis of a failed build of `p` from its log: the first failure
/// pattern that matches decides, in the order header, pkg-config, CMake,
/// `-Werror`, linker, Rust; a log that matches none gets the generic answer.
pub open spec fn spec_diagnose(p: Seq<char>, log: Seq<char>) -> ResponseV {
    spec_diagnosis_for(p, spec_classify(log))
}

/// The failure a build log shows: the first pattern that matches, in the order
/// header, pkg-config, CMake, `-Werror`, linker, Rust.
pub open spec fn spec_classify(log: Seq<char>) -> FailureV {
    match regex_group1(missing_header_re(), log) {
        Some(g) => FailureV::MissingHeader(group_text(g)),
        None => match regex_group1(pkg_config_re(), log) {
            Some(g) => FailureV::PkgConfig(group_text(g)),
            None => match regex_group1(cmake_pkg_re(), log) {
                Some(g) => FailureV::CMakeModule(group_text(g)),
                None => match regex_group1(werror_re(), log) {
                    Some(g) => FailureV::Werror(g),
                    None => match regex_group1(undefined_ref_re(), log) {
                        Some(g) => FailureV::UndefinedReference(group_text(g)),
                        None => match regex_group1(rust_unresolved_re(), log) {
                            Some(g) => FailureV::RustUnresolved(group_text(g)),
                            None => FailureV::Unrecognized,
                        },
                    },
                },
            },
        },
    }
}

/// The diagnosis of a failed build of `p` that shows failure `f`.
pub open spec fn spec_diagnosis_for(p: Seq<char>, f: FailureV) -> ResponseV {
    match f {
        FailureV::MissingHeader(h) => diagnose_missing_header(p, h),
        FailureV::PkgConfig(n) => diagnose_pkg_config(p, n),
        FailureV::CMakeModule(n) => diagnose_cmake(p, n),
        FailureV::Werror(w) => diagnose_werror(
            p,
            match w {
                Some(t) => t,
                None => "all"@,
            },
        ),
        FailureV::UndefinedReference(sym) => diagnose_undefined(p, sym),
        FailureV::RustUnresolved(sym) => diagnose_rust(p, sym),
        FailureV::Unrecognized => diagnose_unknown(p),
    }
}

/// The kind of failure a build log shows, with the name the log gives.
#[derive(Debug, Clone)]
pub enum BuildFailure {
    /// A C/C++ header was not found.
    MissingHeader(String),
    /// A pkg-config module was not found.
    PkgConfig(String),
    /// A CMake package configuration was not found.
    CMakeModule(String),
    /// A warning was an error; the warning's name when the log gives one.
    Werror(Option<String>),
    /// The linker found no definition of a symbol.
    UndefinedReference(String),
    /// rustc found no definition of an identifier.
    RustUnresolved(String),
    /// None of the known patterns.
    Unrecognized,
}

/// The plain contents of a [`BuildFailure`].
pub enum FailureV {
    MissingHeader(Seq<char>),
    PkgConfig(Seq<char>),
    CMakeModule(Seq<char>),
    Werror(Option<Seq<char>>),
    UndefinedReference(Seq<char>),
    RustUnresolved(Seq<char>),
    Unrecognized,
}

impl View for BuildFailure {
    type V = FailureV;

    open spec fn view(&self) -> FailureV {
        match self {
            BuildFailure::MissingHeader(h) => FailureV::MissingHeader(h@),
            BuildFailure::PkgConfig(n) => FailureV::PkgConfig(n@),
            BuildFailure::CMakeModule(n) => FailureV::CMakeModule(n@),
            BuildFailure::Werror(w) => FailureV::Werror(opt_view(*w)),
            BuildFailure::UndefinedReference(sym) => FailureV::UndefinedReference(sym@),
            BuildFailure::RustUnresolved(sym) => FailureV::RustUnresolved(sym@),
            BuildFailure::Unrecognized => FailureV::Unrecognized,
        }
    }
}

fn group_or_empty(g: Option<String>) -> (t: String)
    ensures
        t@ == group_text(opt_view(g)),
{
    match g {
        Some(t) => t,
        None => String::new(),
    }
}

impl TriageEngine {
    /// An engine holding the failure patterns.
    pub fn new() -> (e: TriageEngine)
        ensures
            engine_ok(e),
    {
        TriageEngine {
            missing_header_re: "fatal error:\\s*([a-zA-Z0-9_\\-/\\.]+):\\s*No such file or directory",
            pkg_config_re: "(?:Package|dependency)\\s*['`]?([a-zA-Z0-9_\\-\\.\\+]+)['`]?\\s*(?:not found|was not found)",
            cmake_pkg_re: "Could not find a package configuration file provided by \"([a-zA-Z0-9_\\-]+)\"",
            werror_re: "error:\\s*.*\\s*\\[-Werror(?:=([a-zA-Z0-9_\\-]+))?\\]",
            undefined_ref_re: "undefined reference to `([a-zA-Z0-9_]+)'",
            rust_unresolved_re: "error\\[E[0-9]+\\]:\\s*cannot find (?:type|value|function|module) `([a-zA-Z0-9_]+)`",
        }
    }

    /// The package that most likely provides a missing header.
    pub fn map_header_to_package(&self, header: &str) -> (p: &'static str)
        ensures
            p@ == header_package(header@),
    {
        let h = chars_of(header);
        if contains_str(&h, "openssl/") {
            "openssl"
        } else if contains_str(&h, "wayland-") {
            "wayland"
        } else if contains_str(&h, "vulkan/") {
            "vulkan-headers"
        } else if contains_str(&h, "X11/") {
            "libx11"
        } else if contains_str(&h, "zlib.h") {
            "zlib"
        } else if contains_str(&h, "glib.h") || contains_str(&h, "glib/") {
            "glib2"
        } else if contains_str(&h, "curl/") {
            "curl"
        } else if contains_str(&h, "sqlite3.h") {
            "sqlite"
        } else if contains_str(&h, "alsa/") {
            "alsa-lib"
        } else if contains_str(&h, "pulse/") {
            "libpulse"
        } else if contains_str(&h, "pipewire/") {
            "pipewire"
        } else if contains_str(&h, "systemd/") {
            "systemd-libs"
        } else if contains_str(&h, "pcre2.h") {
            "pcre2"
        } else if contains_str(&h, "ffi.h") {
            "libffi"
        } else if contains_str(&h, "zstd.h") {
            "zstd"
        } else {
            "base-devel"
        }
    }

    /// The failure a build log shows, by the first of the engine's patterns
    /// that matches it.
    pub fn classify(&self, log: &str) -> (f: BuildFailure)
        requires
            engine_ok(*self),
        ensures
            f@ == spec_classify(log@),
    {
        if let Some(g) = first_group(self.missing_header_re, log) {
            return BuildFailure::MissingHeader(group_or_empty(g));
        }
        if let Some(g) = first_group(self.pkg_config_re, log) {
            return BuildFailure::PkgConfig(group_or_empty(g));
        }
        if let Some(g) = first_group(self.cmake_pkg_re, log) {
            return BuildFailure::CMakeModule(group_or_empty(g));
        }
        if let Some(g) = first_group(self.werror_re, log) {
            return BuildFailure::Werror(g);
        }
        if let Some(g) = first_group(self.undefined_ref_re, log) {
            return BuildFailure::UndefinedReference(group_or_empty(g));
        }
        if let Some(g) = first_group(self.rust_unresolved_re, log) {
            return BuildFailure::RustUnresolved(group_or_empty(g));
        }
        BuildFailure::Unrecognized
    }

    /// Diagnoses a failed build of `package` from its log. The compiler and flags
    /// of the request are not consulted.
    pub fn diagnose(
        &self,
        package: &str,
        log: &str,
        compiler: Option<&str>,
        flags: Option<&str>,
    ) -> (r: BrainResponse)
        requires
            engine_ok(*self),
        ensures
            r@ == spec_diagnose(package@, log@),
    {
        let failure = self.classify(log);
        self.diagnosis_for(package, failure)
    }

    /// The diagnosis of a failed build of `package` that shows `failure`.
    pub fn diagnosis_for(&self, package: &str, failure: BuildFailure) -> (r: BrainResponse)
        ensures
            r@ == spec_diagnosis_for(package@, failure@),
    {
        match failure {
            BuildFailure::MissingHeader(header) => {
                let pkg = self.map_header_to_package(header.as_str());
                let h = header.as_str();
                let r = BrainResponse::Diagnose {
                    package: s(package),
                    root_cause: cat3("Missing C/C++ development header: <", h, ">"),
                    explanation: cat3("The compiler failed because required C/C++ header '", h, "' was not found in system include paths (/usr/include)."),
                    suggested_fixes: three(
                        cat5("Install '", pkg, "' via 'mimic install ", pkg, "'"),
                        cat3("Add '", pkg, "' to 'makedepends=(...)' in PKGBUILD"),
                        s("Verify /usr/include is properly mounted in hermetic sandbox"),
                    ),
                    suggested_flags: None,
                };
                assert(r@ =~= spec_diagnosis_for(package@, failure@));
                r
            },
            BuildFailure::PkgConfig(name) => {
                let n = name.as_str();
                let r = BrainResponse::Diagnose {
                    package: s(package),
                    root_cause: cat3("Missing pkg-config metadata module: '", n, "'"),
                    explanation: cat3("The build system searched for '", n, ".pc' using pkgconf/pkg-config, but the library development files are missing."),
                    suggested_fixes: two(
                        cat5("Install '", n, "' or corresponding devel package: 'mimic install ", n, "'"),
                        cat3("Add '", n, "' to makedepends in PKGBUILD"),
                    ),
                    suggested_flags: None,
                };
                assert(r@ =~= spec_diagnosis_for(package@, failure@));
                r
            },
            BuildFailure::CMakeModule(name) => {
                let n = name.as_str();
                let lv = to_lowercase_chars(&chars_of(n));
                let lower = string_of(&lv);
                let l = lower.as_str();
                let r = BrainResponse::Diagnose {
                    package: s(package),
                    root_cause: cat3("Missing CMake module: '", n, "Config.cmake'"),
                    explanation: cat3("CMake find_package(", n, ") failed because the package configuration files are not installed in /usr/lib/cmake or /usr/share/cmake."),
                    suggested_fixes: two(
                        cat5("Install '", l, "' development package via 'mimic install ", l, "'"),
                        cat3("Add '", l, "' to makedepends in PKGBUILD"),
                    ),
                    suggested_flags: None,
                };
                assert(r@ =~= spec_diagnosis_for(package@, failure@));
                r
            },
            BuildFailure::Werror(g) => {
                let w: String = match g {
                    Some(w) => w,
                    None => s("all"),
                };
                let wt = w.as_str();
                let r = BrainResponse::Diagnose {
                    package: s(package),
                    root_cause: cat3("Compiler warning treated as error (-Werror=", wt, ")"),
                    explanation: s(
                        "The codebase was compiled with -Werror, causing newer GCC/Clang compilers with stricter checks to fail the build.",
                    ),
                    suggested_fixes: two(
                        s("Append '-Wno-error' to CFLAGS/CXXFLAGS"),
                        cat3("Add 'export CFLAGS=\"$CFLAGS -Wno-error -Wno-", wt, "\"' to build() in PKGBUILD"),
                    ),
                    suggested_flags: Some(s("-Wno-error")),
                };
                assert(r@ =~= spec_diagnosis_for(package@, failure@));
                r
            },
            BuildFailure::UndefinedReference(sym) => {
                let sv = chars_of(sym.as_str());
                let (flag, note): (&str, &str) = if starts_with_str(&sv, "cos") || starts_with_str(
                    &sv,
                    "sin",
                ) || starts_with_str(&sv, "pow") {
                    ("-lm", "Standard C Math Library")
                } else if starts_with_str(&sv, "pthread_") {
                    ("-lpthread", "POSIX Threads Library")
                } else if starts_with_str(&sv, "dlopen") || starts_with_str(&sv, "dlsym") {
                    ("-ldl", "Dynamic Linking Library")
                } else {
                    ("-Wl,--no-as-needed", "Linker symbol resolution")
                };
                let y = sym.as_str();
                let r = BrainResponse::Diagnose {
                    package: s(package),
                    root_cause: cat5("Unresolved linker symbol: '", y, "' (", note, ")"),
                    explanation: cat3("The linker (mold/ld) failed to find the definition for '", y, "' during linking stage."),
                    suggested_fixes: two(
                        cat3("Append '", flag, "' to LDFLAGS"),
                        s("If building with LTO, try disabling -flto for this package"),
                    ),
                    suggested_flags: Some(s(flag)),
                };
                assert(r@ =~= spec_diagnosis_for(package@, failure@));
                r
            },
            BuildFailure::RustUnresolved(sym) => {
                let r = BrainResponse::Diagnose {
                    package: s(package),
                    root_cause: cat3("Rust compilation error: unresolved identifier '", sym.as_str(), "'"),
                    explanation: s(
                        "The Rust crate failed to compile due to missing dependencies or rustc version incompatibility.",
                    ),
                    suggested_fixes: two(
                        s("Ensure rust/cargo toolchain is up to date via 'mimic install rust cargo'"),
                        s("Check if crate requires a newer MSRV (Minimum Supported Rust Version)"),
                    ),
                    suggested_flags: None,
                };
                assert(r@ =~= spec_diagnosis_for(package@, failure@));
                r
            },
            BuildFailure::Unrecognized => {
                let r = BrainResponse::Diagnose {
                    package: s(package),
                    root_cause: s("Unrecognized compilation or script failure"),
                    explanation: s(
                        "The build failed during execution of makepkg. Review the build logs above for details.",
                    ),
                    suggested_fixes: three(
                        s("Check the upstream repository issue tracker for known build issues"),
                        s("Try building without aggressive compiler flags (e.g. without LTO or -march=native)"),
                        s("Inspect the PKGBUILD prepare() and build() functions"),
                    ),
                    suggested_flags: None,
                };
                assert(r@ =~= spec_diagnosis_for(package@, failure@));
                r
            },
        }
    }
}

fn two(a: String, b: String) -> (v: Vec<String>)
    ensures
        strings_view(v@) == seq![a@, b@],
{
    let mut v: Vec<String> = Vec::new();
    v.push(a);
    v.push(b);
    assert(strings_view(v@) =~= seq![a@, b@]);
    v
}

fn three(a: String, b: String, c: String) -> (v: Vec<String>)
    ensures
        strings_view(v@) == seq![a@, b@, c@],
{
    let mut v: Vec<String> = Vec::new();
    v.push(a);
    v.push(b);
    v.push(c);
    assert(strings_view(v@) =~= seq![a@, b@, c@]);
    v
}

// ----------------------------------------------------------------------------
// Package explanations
// ----------------------------------------------------------------------------

/// `char::is_alphanumeric`: the character is alphabetic or numeric in Unicode.
pub uninterp spec fn is_alphanumeric(c: char) -> bool;

/// Calls std `char::is_alphanumeric`; the result is named by [`is_alphanumeric`].
#[verifier::external_body]
fn char_is_alphanumeric(c: char) -> (b: bool)
    ensures
        b == is_alphanumeric(c),
{
    c.is_alphanumeric()
}

/// A character that belongs to a package-name token.
pub open spec fn is_token_char(c: char) -> bool {
    is_alphanumeric(c) || c == '-' || c == '_'
}

/// The end of the token run that starts at `i`.
pub open spec fn token_end(s: Seq<char>, i: int) -> int
    decreases s.len() - i,
{
    if i < 0 || i >= s.len() {
        s.len() as int
    } else if !is_token_char(s[i]) {
        i
    } else {
        token_end(s, i + 1)
    }
}

pub proof fn lemma_token_end_bounds(s: Seq<char>, i: int)
    ensures
        0 <= i <= s.len() ==> i <= token_end(s, i) <= s.len(),
        0 <= i < s.len() && is_token_char(s[i]) ==> i < token_end(s, i),
    decreases s.len() - i,
{
    if 0 <= i < s.len() && is_token_char(s[i]) {
        lemma_token_end_bounds(s, i + 1);
    }
}

/// The non-empty pieces of `s.skip(i)` between characters that are not token
/// characters.
pub open spec fn tokens_from(s: Seq<char>, i: int) -> Seq<Seq<char>>
    decreases s.len() - i,
{
    if i < 0 || i >= s.len() {
        seq![]
    } else if !is_token_char(s[i]) {
        tokens_from(s, i + 1)
    } else {
        let j = token_end(s, i);
        proof {
            lemma_token_end_bounds(s, i);
        }
        seq![s.subrange(i, j)] + tokens_from(s, j)
    }
}

/// The known topics of the explanation table.
#[derive(Debug, Clone, Copy, PartialEq, Eq, Structural)]
pub enum WikiTopic {
    PipeWire,
    Hyprland,
    Bubblewrap,
    Sccache,
    Mold,
    Ripgrep,
    Other,
}

/// The lowercased name is one of the keywords, or one of its tokens is.
pub open spec fn keyword_match(lower: Seq<char>, toks: Seq<Seq<char>>, kws: Seq<Seq<char>>) -> bool {
    (exists|k: int| 0 <= k < kws.len() && #[trigger] kws[k] == lower) || (exists|t: int, k: int|
        0 <= t < toks.len() && 0 <= k < kws.len() && #[trigger] toks[t] == #[trigger] kws[k])
}

/// The topic of a lowercased package name: the first entry of the table whose
/// keywords it matches.
pub open spec fn spec_topic(lower: Seq<char>) -> WikiTopic {
    let toks = tokens_from(lower, 0);
    if keyword_match(lower, toks, seq!["pipewire"@, "pipewire-pulse"@, "pipewire-jack"@]) {
        WikiTopic::PipeWire
    } else if keyword_match(lower, toks, seq!["hyprland"@, "hyprland-git"@]) {
        WikiTopic::Hyprland
    } else if keyword_match(lower, toks, seq!["bwrap"@, "bubblewrap"@]) {
        WikiTopic::Bubblewrap
    } else if keyword_match(lower, toks, seq!["sccache"@]) {
        WikiTopic::Sccache
    } else if keyword_match(lower, toks, seq!["mold"@]) {
        WikiTopic::Mold
    } else if keyword_match(lower, toks, seq!["ripgrep"@, "rg"@]) {
        WikiTopic::Ripgrep
    } else {
        WikiTopic::Other
    }
}

pub open spec fn why(
    p: Seq<char>,
    role: Seq<char>,
    summary: Seq<char>,
    insights: Seq<Seq<char>>,
    alternatives: Seq<Seq<char>>,
    topic: Seq<char>,
) -> ResponseV {
    ResponseV::Why {
        package: p,
        summary,
        role,
        key_insights: insights,
        alternatives,
        archwiki_topic: Some(topic),
    }
}

/// The explanation given for a topic.
pub open spec fn why_response(p: Seq<char>, t: WikiTopic) -> ResponseV {
    match t {
        WikiTopic::PipeWire => why(
            p,
            "Next-Generation Multimedia Processing & Routing Subsystem"@,
            "PipeWire handles low-latency audio and video processing, sandboxed application streaming (Flatpak/Wayland), and acts as a drop-in replacement for PulseAudio, JACK, and ALSA."@,
            seq![
                "Unified buffer sharing between video (Wayland screen capture) and audio"@,
                "Zero-latency graph model compatible with professional DAW workflows"@,
                "Enforces per-client access control for hermetic security"@,
            ],
            seq!["pulseaudio"@, "jack2"@],
            "https://wiki.archlinux.org/title/PipeWire"@,
        ),
        WikiTopic::Hyprland => why(
            p,
            "Dynamic Tiling Wayland Compositor with Hardware Acceleration"@,
            "Hyprland is a modern wlroots/aquamarine based dynamic tiling Wayland compositor written in C++, featuring fluid animations, dual-stack window tiling, and plugin support."@,
            seq![
                "GPU-accelerated renderer supporting custom bezier curve transitions"@,
                "IPC socket protocol allowing deep customization from scripts and bar widgets"@,
                "Native multi-monitor fractional scaling and tearing protocol support"@,
            ],
            seq!["sway"@, "niri"@, "river"@],
            "https://wiki.archlinux.org/title/Hyprland"@,
        ),
        WikiTopic::Bubblewrap => why(
            p,
            "Unprivileged Sandboxing and Containerization Tool"@,
            "Bubblewrap creates unprivileged sandboxes using Linux user namespaces. It is the underlying isolation technology used by Flatpak, devtools, and Mimic's hermetic build container."@,
            seq![
                "Constructs isolated filesystem mount tables without requiring root / SUID"@,
                "Restricts network, IPC, PID, and UTS namespaces for clean hermetic compilation"@,
                "Zero background daemon overhead compared to Docker or Podman"@,
            ],
            seq!["firejail"@, "systemd-nspawn"@],
            "https://wiki.archlinux.org/title/Bubblewrap"@,
        ),
        WikiTopic::Sccache => why(
            p,
            "Shared Compilation Cache for C, C++, and Rust"@,
            "sccache is a ccache-like compiler cache developed by Mozilla, supporting local disk cache and cloud object stores (S3, GCS, Redis) for C/C++ and Rustc compilation."@,
            seq![
                "Dramatically accelerates iterative AUR and package rebuilds"@,
                "Seamlessly wraps gcc, clang, and rustc via RUSTC_WRAPPER"@,
                "Integrated into Mimic's Hermetic Sandbox by default"@,
            ],
            seq!["ccache"@],
            "https://wiki.archlinux.org/title/Ccache"@,
        ),
        WikiTopic::Mold => why(
            p,
            "High-Performance Modern ELF Linker"@,
            "mold is an ultra-fast alternative to GNU ld and LLVM lld, designed to prevent link-time bottlenecks on multi-core systems."@,
            seq![
                "Often 2x-4x faster than lld and 10x faster than GNU gold/ld.bfd"@,
                "Supports modern ELF features, LTO, and split DWARF"@,
                "Used in Mimic's default build flags via -fuse-ld=mold"@,
            ],
            seq!["lld"@, "binutils"@],
            "https://wiki.archlinux.org/title/Mold"@,
        ),
        WikiTopic::Ripgrep => why(
            p,
            "Ultra-Fast Line-Oriented Regex Search Tool"@,
            "ripgrep (rg) recursively searches directories for a regex pattern while respecting gitignore rules and skipping binary files by default."@,
            seq![
                "Written in pure Rust on top of the rust-regex finite state machine"@,
                "Parallel directory traversal with SIMD acceleration"@,
            ],
            seq!["grep"@, "the_silver_searcher"@, "ack"@],
            "https://wiki.archlinux.org/title/Core_utilities#Search"@,
        ),
        WikiTopic::Other => why(
            p,
            "Arch Linux / AUR Ecosystem Package"@,
            "Package '"@ + p
                + "' is part of the Arch Linux / AUR ecosystem. Query 'mimic info "@ + p
                + "' or the official ArchWiki for component breakdown."@,
            seq![
                "Rolling release lifecycle aligned with upstream development"@,
                "Managed with native libalpm tracking dependencies, conflicts, and file ownership"@,
            ],
            seq![],
            "https://wiki.archlinux.org/title/Special:Search?search="@ + p,
        ),
    }
}

/// The tokens of `v`.
fn tokens_of(v: &[char]) -> (r: Vec<Vec<char>>)
    ensures
        vecs_view(r@) == tokens_from(v@, 0),
{
    let mut r: Vec<Vec<char>> = Vec::new();
    let mut i: usize = 0;
    while i < v.len()
        invariant
            i <= v.len(),
            vecs_view(r@) + tokens_from(v@, i as int) == tokens_from(v@, 0),
        decreases v.len() - i,
    {
        let c = v[i];
        if !(char_is_alphanumeric(c) || c == '-' || c == '_') {
            i = i + 1;
        } else {
            let mut j: usize = i;
            while j < v.len() && (char_is_alphanumeric(v[j]) || v[j] == '-' || v[j] == '_')
                invariant
                    i <= j <= v.len(),
                    token_end(v@, i as int) == token_end(v@, j as int),
                decreases v.len() - j,
            {
                j = j + 1;
            }
            proof {
                lemma_token_end_bounds(v@, i as int);
            }
            let piece = slice_chars(v, i, j);
            let ghost before = vecs_view(r@);
            r.push(piece);
            assert(vecs_view(r@) == before.push(piece@));
            assert(vecs_view(r@) + tokens_from(v@, j as int) == before + tokens_from(v@, i as int));
            i = j;
        }
    }
    assert(vecs_view(r@) + Seq::<Seq<char>>::empty() == vecs_view(r@));
    r
}

/// Whether the name or one of its tokens is one of the keywords.
fn matches_keywords(lower: &[char], toks: &Vec<Vec<char>>, kws: &[&str]) -> (b: bool)
    ensures
        b == keyword_match(lower@, vecs_view(toks@), kws@.map_values(|k: &str| k@)),
{
    let ghost kv = kws@.map_values(|k: &str| k@);
    let ghost tv = vecs_view(toks@);
    let mut k: usize = 0;
    while k < kws.len()
        invariant
            k <= kws.len(),
            kv == kws@.map_values(|k: &str| k@),
            forall|j: int| 0 <= j < k ==> kv[j] != lower@,
        decreases kws.len() - k,
    {
        assert(kv[k as int] == kws@[k as int]@);
        if crate::text::eq_str(lower, kws[k]) {
            return true;
        }
        k = k + 1;
    }
    let mut t: usize = 0;
    while t < toks.len()
        invariant
            t <= toks.len(),
            kv == kws@.map_values(|k: &str| k@),
            tv == vecs_view(toks@),
            forall|j: int| 0 <= j < kv.len() ==> kv[j] != lower@,
            forall|a: int, j: int| 0 <= a < t && 0 <= j < kv.len() ==> tv[a] != kv[j],
        decreases toks.len() - t,
    {
        let mut k2: usize = 0;
        while k2 < kws.len()
            invariant
                t < toks.len(),
                k2 <= kws.len(),
                kv == kws@.map_values(|k: &str| k@),
                tv == vecs_view(toks@),
                forall|j: int| 0 <= j < k2 ==> tv[t as int] != kv[j],
            decreases kws.len() - k2,
        {
            assert(kv[k2 as int] == kws@[k2 as int]@);
            assert(tv[t as int] == toks@[t as int]@);
            if crate::text::eq_str(&toks[t], kws[k2]) {
                assert(tv[t as int] == kv[k2 as int]);
                return true;
            }
            k2 = k2 + 1;
        }
        t = t + 1;
    }
    false
}

fn strs1(a: &str) -> (v: Vec<String>)
    ensures
        strings_view(v@) == seq![a@],
{
    let mut v: Vec<String> = Vec::new();
    v.push(s(a));
    assert(strings_view(v@) =~= seq![a@]);
    v
}

fn strs2(a: &str, b: &str) -> (v: Vec<String>)
    ensures
        strings_view(v@) == seq![a@, b@],
{
    two(s(a), s(b))
}

fn strs3(a: &str, b: &str, c: &str) -> (v: Vec<String>)
    ensures
        strings_view(v@) == seq![a@, b@, c@],
{
    three(s(a), s(b), s(c))
}

fn cat2(a: &str, b: &str) -> (r: String)
    ensures
        r@ == a@ + b@,
{
    let mut v = chars_of(a);
    crate::text::append_str(&mut v, b);
    string_of(&v)
}

pub struct ArchWikiAdvisor;

impl ArchWikiAdvisor {
    /// The topic a package name belongs to.
    pub fn topic(package: &str) -> (t: WikiTopic)
        ensures
            t == spec_topic(lowercase(package@)),
    {
        let lower = to_lowercase_chars(&chars_of(package));
        let toks = tokens_of(&lower);
        let k1: [&str; 3] = ["pipewire", "pipewire-pulse", "pipewire-jack"];
        let k2: [&str; 2] = ["hyprland", "hyprland-git"];
        let k3: [&str; 2] = ["bwrap", "bubblewrap"];
        let k4: [&str; 1] = ["sccache"];
        let k5: [&str; 1] = ["mold"];
        let k6: [&str; 2] = ["ripgrep", "rg"];
        assert(k1@.map_values(|k: &str| k@) =~= seq!["pipewire"@, "pipewire-pulse"@, "pipewire-jack"@]);
        assert(k2@.map_values(|k: &str| k@) =~= seq!["hyprland"@, "hyprland-git"@]);
        assert(k3@.map_values(|k: &str| k@) =~= seq!["bwrap"@, "bubblewrap"@]);
        assert(k4@.map_values(|k: &str| k@) =~= seq!["sccache"@]);
        assert(k5@.map_values(|k: &str| k@) =~= seq!["mold"@]);
        assert(k6@.map_values(|k: &str| k@) =~= seq!["ripgrep"@, "rg"@]);
        if matches_keywords(&lower, &toks, &k1) {
            WikiTopic::PipeWire
        } else if matches_keywords(&lower, &toks, &k2) {
            WikiTopic::Hyprland
        } else if matches_keywords(&lower, &toks, &k3) {
            WikiTopic::Bubblewrap
        } else if matches_keywords(&lower, &toks, &k4) {
            WikiTopic::Sccache
        } else if matches_keywords(&lower, &toks, &k5) {
            WikiTopic::Mold
        } else if matches_keywords(&lower, &toks, &k6) {
            WikiTopic::Ripgrep
        } else {
            WikiTopic::Other
        }
    }

    /// What a package is for, from the built-in table of well-known packages.
    pub fn explain(package: &str) -> (r: BrainResponse)
        ensures
            r@ == why_response(package@, spec_topic(lowercase(package@))),
    {
        let t = Self::topic(package);
        let r = match t {
            WikiTopic::PipeWire => BrainResponse::Why {
                package: s(package),
                role: s("Next-Generation Multimedia Processing & Routing Subsystem"),
                summary: s("PipeWire handles low-latency audio and video processing, sandboxed application streaming (Flatpak/Wayland), and acts as a drop-in replacement for PulseAudio, JACK, and ALSA."),
                key_insights: strs3("Unified buffer sharing between video (Wayland screen capture) and audio", "Zero-latency graph model compatible with professional DAW workflows", "Enforces per-client access control for hermetic security"),
                alternatives: strs2("pulseaudio", "jack2"),
                archwiki_topic: Some(s("https://wiki.archlinux.org/title/PipeWire")),
            },
            WikiTopic::Hyprland => BrainResponse::Why {
                package: s(package),
                role: s("Dynamic Tiling Wayland Compositor with Hardware Acceleration"),
                summary: s("Hyprland is a modern wlroots/aquamarine based dynamic tiling Wayland compositor written in C++, featuring fluid animations, dual-stack window tiling, and plugin support."),
                key_insights: strs3("GPU-accelerated renderer supporting custom bezier curve transitions", "IPC socket protocol allowing deep customization from scripts and bar widgets", "Native multi-monitor fractional scaling and tearing protocol support"),
                alternatives: strs3("sway", "niri", "river"),
                archwiki_topic: Some(s("https://wiki.archlinux.org/title/Hyprland")),
            },
            WikiTopic::Bubblewrap => BrainResponse::Why {
                package: s(package),
                role: s("Unprivileged Sandboxing and Containerization Tool"),
                summary: s("Bubblewrap creates unprivileged sandboxes using Linux user namespaces. It is the underlying isolation technology used by Flatpak, devtools, and Mimic's hermetic build container."),
                key_insights: strs3("Constructs isolated filesystem mount tables without requiring root / SUID", "Restricts network, IPC, PID, and UTS namespaces for clean hermetic compilation", "Zero background daemon overhead compared to Docker or Podman"),
                alternatives: strs2("firejail", "systemd-nspawn"),
                archwiki_topic: Some(s("https://wiki.archlinux.org/title/Bubblewrap")),
            },
            WikiTopic::Sccache => BrainResponse::Why {
                package: s(package),
                role: s("Shared Compilation Cache for C, C++, and Rust"),
                summary: s("sccache is a ccache-like compiler cache developed by Mozilla, supporting local disk cache and cloud object stores (S3, GCS, Redis) for C/C++ and Rustc compilation."),
                key_insights: strs3("Dramatically accelerates iterative AUR and package rebuilds", "Seamlessly wraps gcc, clang, and rustc via RUSTC_WRAPPER", "Integrated into Mimic's Hermetic Sandbox by default"),
                alternatives: strs1("ccache"),
                archwiki_topic: Some(s("https://wiki.archlinux.org/title/Ccache")),
            },
            WikiTopic::Mold => BrainResponse::Why {
                package: s(package),
                role: s("High-Performance Modern ELF Linker"),
                summary: s("mold is an ultra-fast alternative to GNU ld and LLVM lld, designed to prevent link-time bottlenecks on multi-core systems."),
                key_insights: strs3("Often 2x-4x faster than lld and 10x faster than GNU gold/ld.bfd", "Supports modern ELF features, LTO, and split DWARF", "Used in Mimic's default build flags via -fuse-ld=mold"),
                alternatives: strs2("lld", "binutils"),
                archwiki_topic: Some(s("https://wiki.archlinux.org/title/Mold")),
            },
            WikiTopic::Ripgrep => BrainResponse::Why {
                package: s(package),
                role: s("Ultra-Fast Line-Oriented Regex Search Tool"),
                summary: s("ripgrep (rg) recursively searches directories for a regex pattern while respecting gitignore rules and skipping binary files by default."),
                key_insights: strs2("Written in pure Rust on top of the rust-regex finite state machine", "Parallel directory traversal with SIMD acceleration"),
                alternatives: strs3("grep", "the_silver_searcher", "ack"),
                archwiki_topic: Some(s("https://wiki.archlinux.org/title/Core_utilities#Search")),
            },
            WikiTopic::Other => BrainResponse::Why {
                package: s(package),
                role: s("Arch Linux / AUR Ecosystem Package"),
                summary: cat5(
                    "Package '",
                    package,
                    "' is part of the Arch Linux / AUR ecosystem. Query 'mimic info ",
                    package,
                    "' or the official ArchWiki for component breakdown.",
                ),
                key_insights: strs2("Rolling release lifecycle aligned with upstream development", "Managed with native libalpm tracking dependencies, conflicts, and file ownership"),
                alternatives: Vec::new(),
                // no alternatives are known
                archwiki_topic: Some(cat2("https://wiki.archlinux.org/title/Special:Search?search=", package)),
            },
        };
        assert(r@ =~= why_response(package@, t));
        r
    }
}

// ----------------------------------------------------------------------------
// Answering requests
// ----------------------------------------------------------------------------

/// The answer to a request: a `Pong` to a ping, an explanation to a `Why`, a
/// diagnosis to a `Diagnose`.
pub open spec fn spec_respond(req: BrainRequest) -> ResponseV {
    match req {
        BrainRequest::Ping => ResponseV::Pong { version: "4.0.0"@, status: "dormant_standby"@ },
        BrainRequest::Why { package } => why_response(package@, spec_topic(lowercase(package@))),
        BrainRequest::Diagnose { package, error_log, .. } => spec_diagnose(package@, error_log@),
    }
}

/// Answers one request of the advisor protocol.
pub fn respond(triage: &TriageEngine, req: &BrainRequest) -> (r: BrainResponse)
    requires
        engine_ok(*triage),
    ensures
        r@ == spec_respond(*req),
{
    match req {
        BrainRequest::Ping => {
            let r = BrainResponse::Pong { version: s("4.0.0"), status: s("dormant_standby") };
            r
        },
        BrainRequest::Why { package } => ArchWikiAdvisor::explain(package.as_str()),
        BrainRequest::Diagnose { package, error_log, compiler, flags } => {
            let c: Option<&str> = match compiler {
                Some(c) => Some(c.as_str()),
                None => None,
            };
            let f: Option<&str> = match flags {
                Some(f) => Some(f.as_str()),
                None => None,
            };
            triage.diagnose(package.as_str(), error_log.as_str(), c, f)
        },
    }
}

} // verus!
