//! Properties that pin down what the engine's lookup tables and classifiers
//! answer: validity letters of GnuPG listings, build systems, header packages,
//! pressure figures and hunting grounds.

use vstd::prelude::*;
use crate::brain::header_package;
use crate::git_source::{spec_toolchain, BuildToolchain, RepoMarkers};
use crate::hunt_search::{spec_grounds, Ground};
use crate::keyring::{
    count_keys, listing_scan, listing_step, new_key, part, spec_key_listing, spec_validity, KeyV, KeyValidity,
    ListingV,
};
use crate::psi::avg10_texts;
use crate::text::{contains, decimal, lines, split, starts_with};

verus! {

// ----------------------------------------------------------------------------
// GnuPG key validity
// ----------------------------------------------------------------------------

/// GnuPG's validity letters (field 2 of a `pub` record) and what each means.
pub open spec fn validity_letters() -> Seq<(Seq<char>, KeyValidity)> {
    seq![
        ("u"@, KeyValidity::Ultimate),
        ("f"@, KeyValidity::Full),
        ("m"@, KeyValidity::Marginal),
        ("e"@, KeyValidity::Expired),
        ("r"@, KeyValidity::Revoked),
        ("d"@, KeyValidity::Disabled),
        ("i"@, KeyValidity::Invalid),
    ]
}

/// A key's validity follows GnuPG's letter: each letter of [`validity_letters`]
/// gives its meaning unless the key's flags carry `D` (disabled), which always
/// gives `Disabled`; any other letter gives `Unknown`.
pub proof fn law_validity_letters(code: Seq<char>, flags: Seq<char>)
    ensures
        contains(flags, "D"@) ==> spec_validity(code, flags) == KeyValidity::Disabled,
        forall|k: int|
            0 <= k < validity_letters().len() && !contains(flags, "D"@) && code == (
            #[trigger] validity_letters()[k]).0 ==> spec_validity(code, flags) == validity_letters()[k].1,
        !contains(flags, "D"@) && (forall|k: int|
            0 <= k < validity_letters().len() ==> code != (#[trigger] validity_letters()[k]).0) ==> spec_validity(
            code,
            flags,
        ) == KeyValidity::Unknown,
{
    reveal_strlit("u");
    reveal_strlit("f");
    reveal_strlit("m");
    reveal_strlit("e");
    reveal_strlit("r");
    reveal_strlit("d");
    reveal_strlit("i");
    let t = validity_letters();
    assert(t[0].0 == "u"@ && t[1].0 == "f"@ && t[2].0 == "m"@ && t[3].0 == "e"@ && t[4].0 == "r"@ && t[5].0
        == "d"@ && t[6].0 == "i"@);
    assert forall|k: int|
        0 <= k < t.len() && !contains(flags, "D"@) && code == (#[trigger] t[k]).0 implies spec_validity(code, flags)
        == t[k].1 by {
        assert(code.len() == 1);
        assert(code[0] == t[k].0[0]);
    }
}

/// The first key of a listing that starts with a `pub` record has the validity
/// that record's letter (field 2) and flags (field 12) give.
pub proof fn law_first_key_validity(out: Seq<char>)
    requires
        lines(out).len() > 0,
        part(split(lines(out)[0], ':'), 0) == "pub"@,
    ensures
        spec_key_listing(out).len() > 0,
        spec_key_listing(out)[0].validity == spec_validity(
            part(split(lines(out)[0], ':'), 1),
            part(split(lines(out)[0], ':'), 11),
        ),
{
    let ls = lines(out);
    let v0 = spec_validity(part(split(ls[0], ':'), 1), part(split(ls[0], ':'), 11));
    lemma_scan_first(ls, v0);
}

/// What a scan keeps of the key its first `pub` record started.
pub open spec fn keeps_first(st: ListingV, v0: KeyValidity) -> bool {
    ||| st.keys.len() > 0 && st.keys[0].validity == v0
    ||| st.keys.len() == 0 && (st.current matches Some(c) && c.validity == v0)
}

proof fn lemma_scan_first(ls: Seq<Seq<char>>, v0: KeyValidity)
    requires
        ls.len() > 0,
        part(split(ls[0], ':'), 0) == "pub"@,
        v0 == spec_validity(part(split(ls[0], ':'), 1), part(split(ls[0], ':'), 11)),
    ensures
        keeps_first(listing_scan(ls), v0),
    decreases ls.len(),
{
    if ls.len() == 1 {
        assert(ls.drop_last() =~= Seq::<Seq<char>>::empty());
        assert(listing_scan(ls) == listing_step(listing_scan(ls.drop_last()), ls.last()));
        assert(new_key(split(ls[0], ':')).validity == v0);
    } else {
        let d = ls.drop_last();
        assert(d[0] == ls[0]);
        lemma_scan_first(d, v0);
        let st = listing_scan(d);
        assert(listing_scan(ls) == listing_step(st, ls.last()));
        if st.keys.len() > 0 {
            let s2 = listing_step(st, ls.last());
            assert(s2.keys.len() > 0 && s2.keys[0] == st.keys[0]);
        }
    }
}

/// The keys a listing counts as trusted are exactly those of ultimate or full
/// validity: an expired, revoked, disabled, marginal, invalid or unknown key is
/// never counted as trusted.
pub proof fn law_trusted_keys_counted(ks: Seq<KeyV>)
    ensures
        count_keys(ks, true) == ks.filter(
            |k: KeyV| k.validity == KeyValidity::Ultimate || k.validity == KeyValidity::Full,
        ).len(),
    decreases ks.len(),
{
    reveal(Seq::filter);
    if ks.len() > 0 {
        law_trusted_keys_counted(ks.drop_last());
    }
}

// ----------------------------------------------------------------------------
// Build systems
// ----------------------------------------------------------------------------

/// A build is detected exactly when the repository has one of the build files;
/// the toolchain is that of the first present marker in the order Cargo, Meson
/// (top level, then `src/`), CMake (top level, then `src/`), Make (top level,
/// then `src/`); a top-level `meson.build` is set up from the top level and a
/// `src/meson.build` from `src`.
pub proof fn law_toolchain_by_marker(m: RepoMarkers, jobs: nat)
    ensures
        spec_toolchain(m, jobs).is_some() <==> (m.cargo_toml || m.meson_build || m.src_meson_build || m.cmake_lists
            || m.src_cmake_lists || m.makefile || m.makefile_lower || m.src_makefile || m.src_makefile_lower),
        m.cargo_toml ==> spec_toolchain(m, jobs).unwrap().0 == BuildToolchain::Rust,
        !m.cargo_toml && (m.meson_build || m.src_meson_build) ==> spec_toolchain(m, jobs).unwrap().0
            == BuildToolchain::Meson,
        !m.cargo_toml && !m.meson_build && !m.src_meson_build && (m.cmake_lists || m.src_cmake_lists)
            ==> spec_toolchain(m, jobs).unwrap().0 == BuildToolchain::CMake,
        !m.cargo_toml && !m.meson_build && !m.src_meson_build && !m.cmake_lists && !m.src_cmake_lists && (
        m.makefile || m.makefile_lower || m.src_makefile || m.src_makefile_lower) ==> spec_toolchain(m, jobs).unwrap().0
            == BuildToolchain::Make,
        !m.cargo_toml && m.meson_build ==> starts_with(
            spec_toolchain(m, jobs).unwrap().1,
            "meson setup _build --prefix=/usr"@,
        ),
        !m.cargo_toml && !m.meson_build && m.src_meson_build ==> starts_with(
            spec_toolchain(m, jobs).unwrap().1,
            "meson setup _build src --prefix=/usr"@,
        ),
{
    let j = decimal(jobs);
    let top = "meson setup _build --prefix=/usr --buildtype=release && ninja -C _build -j "@;
    let src = "meson setup _build src --prefix=/usr --buildtype=release && ninja -C _build -j "@;
    reveal_strlit("meson setup _build --prefix=/usr --buildtype=release && ninja -C _build -j ");
    reveal_strlit("meson setup _build src --prefix=/usr --buildtype=release && ninja -C _build -j ");
    reveal_strlit("meson setup _build --prefix=/usr");
    reveal_strlit("meson setup _build src --prefix=/usr");
    if !m.cargo_toml && m.meson_build {
        let s = top + j + " && DESTDIR=/staging ninja -C _build -j "@ + j + " install"@;
        assert(spec_toolchain(m, jobs).unwrap().1 == s);
        assert(s.take(32) =~= "meson setup _build --prefix=/usr"@);
    }
    if !m.cargo_toml && !m.meson_build && m.src_meson_build {
        let s = src + j + " && DESTDIR=/staging ninja -C _build -j "@ + j + " install"@;
        assert(spec_toolchain(m, jobs).unwrap().1 == s);
        assert(s.take(36) =~= "meson setup _build src --prefix=/usr"@);
    }
}

// ----------------------------------------------------------------------------
// Packages of missing headers
// ----------------------------------------------------------------------------

/// Which package provides a missing header, as data: the first marker the
/// header's name contains decides, in this order.
pub open spec fn header_table() -> Seq<(Seq<char>, Seq<char>)> {
    seq![
        ("openssl/"@, "openssl"@),
        ("wayland-"@, "wayland"@),
        ("vulkan/"@, "vulkan-headers"@),
        ("X11/"@, "libx11"@),
        ("zlib.h"@, "zlib"@),
        ("glib.h"@, "glib2"@),
        ("glib/"@, "glib2"@),
        ("curl/"@, "curl"@),
        ("sqlite3.h"@, "sqlite"@),
        ("alsa/"@, "alsa-lib"@),
        ("pulse/"@, "libpulse"@),
        ("pipewire/"@, "pipewire"@),
        ("systemd/"@, "systemd-libs"@),
        ("pcre2.h"@, "pcre2"@),
        ("ffi.h"@, "libffi"@),
        ("zstd.h"@, "zstd"@),
    ]
}

/// The package of the first entry (from `i` on) whose marker `h` contains, or
/// `base-devel` when none does.
pub open spec fn table_package(t: Seq<(Seq<char>, Seq<char>)>, h: Seq<char>, i: nat) -> Seq<char>
    decreases t.len() - i,
{
    if i >= t.len() {
        "base-devel"@
    } else if contains(h, t[i as int].0) {
        t[i as int].1
    } else {
        table_package(t, h, i + 1)
    }
}

/// A missing header is attributed to the package of the first marker of
/// [`header_table`] that its name contains (`zlib.h` to `zlib`, `zstd.h` to
/// `zstd`, ...), and to `base-devel` when it contains none.
pub proof fn law_header_packages(h: Seq<char>)
    ensures
        header_package(h) == table_package(header_table(), h, 0),
{
    let t = header_table();
    assert(t.len() == 16);
    reveal_with_fuel(table_package, 18);
}

// ----------------------------------------------------------------------------
// Memory pressure figures
// ----------------------------------------------------------------------------

/// Only the `some` lines of a pressure file give figures: dropping every other
/// line (such as the `full` line) changes nothing.
pub proof fn law_avg10_some_lines_only(ls: Seq<Seq<char>>)
    ensures
        avg10_texts(ls) == avg10_texts(ls.filter(|l: Seq<char>| starts_with(l, "some "@))),
    decreases ls.len(),
{
    reveal(Seq::filter);
    if ls.len() > 0 {
        law_avg10_some_lines_only(ls.drop_last());
        let f = ls.drop_last().filter(|l: Seq<char>| starts_with(l, "some "@));
        if starts_with(ls.last(), "some "@) {
            assert(ls.filter(|l: Seq<char>| starts_with(l, "some "@)) == f.push(ls.last()));
            assert(f.push(ls.last()).drop_last() =~= f);
        }
    }
}

/// A line that does not start with `some ` (a `full` line, say) adds no figure.
pub proof fn law_avg10_other_lines(ls: Seq<Seq<char>>, l: Seq<char>)
    requires
        !starts_with(l, "some "@),
    ensures
        avg10_texts(ls.push(l)) == avg10_texts(ls),
{
    assert(ls.push(l).drop_last() =~= ls);
}

// ----------------------------------------------------------------------------
// Hunting grounds
// ----------------------------------------------------------------------------

/// The filter word that names each hunting ground.
pub open spec fn ground_name(g: Ground) -> Seq<char> {
    match g {
        Ground::Debian => "deb"@,
        Ground::Aur => "aur"@,
        Ground::Arch => "arch"@,
    }
}

/// A filter that names a ground searches that ground alone; any other filter,
/// or none, searches every ground once, Debian, then Arch, then the AUR. So a
/// ground is searched for a filter exactly when the filter names it or names no
/// ground.
pub proof fn law_grounds_named(f: Seq<char>, g: Ground)
    ensures
        f == ground_name(g) ==> spec_grounds(Some(f)) == seq![g],
        (forall|h: Ground| f != ground_name(h)) ==> spec_grounds(Some(f)) == seq![
            Ground::Debian,
            Ground::Arch,
            Ground::Aur,
        ],
        spec_grounds(None) == seq![Ground::Debian, Ground::Arch, Ground::Aur],
        spec_grounds(Some(f)).contains(g) <==> (f == ground_name(g) || forall|h: Ground| f != ground_name(h)),
{
    reveal_strlit("deb");
    reveal_strlit("aur");
    reveal_strlit("arch");
    assert("deb"@ != "aur"@) by {
        assert("deb"@[0] != "aur"@[0]);
    }
    assert("deb"@ != "arch"@) by {
        assert("deb"@.len() != "arch"@.len());
    }
    assert("aur"@ != "arch"@) by {
        assert("aur"@.len() != "arch"@.len());
    }
    let all = seq![Ground::Debian, Ground::Arch, Ground::Aur];
    assert(all[0] == Ground::Debian && all[1] == Ground::Arch && all[2] == Ground::Aur);
    if f == ground_name(g) {
        assert(spec_grounds(Some(f))[0] == g);
    } else if forall|h: Ground| f != ground_name(h) {
        assert(f != ground_name(Ground::Debian) && f != ground_name(Ground::Aur) && f != ground_name(Ground::Arch));
        match g {
            Ground::Debian => assert(all[0] == g),
            Ground::Arch => assert(all[1] == g),
            Ground::Aur => assert(all[2] == g),
        }
    } else {
        let h = choose|h: Ground| f == ground_name(h);
        assert(h != g);
        assert(spec_grounds(Some(f)) == seq![h]);
        assert(!spec_grounds(Some(f)).contains(g)) by {
            if spec_grounds(Some(f)).contains(g) {
                let k = choose|k: int| 0 <= k < spec_grounds(Some(f)).len() && spec_grounds(Some(f))[k] == g;
                assert(k == 0);
            }
        }
    }
}

} // verus!
