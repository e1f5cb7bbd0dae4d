//! Terminal progress rendering: the animated progress bar, download
//! percentages and the labels of transaction steps.

use vstd::prelude::*;
use crate::text::{append_str, chars_of, string_of};

verus! {

pub const MIMIC_GREEN: &'static str = "\x1b[38;5;48m";
pub const MIMIC_GREEN_BOLD: &'static str = "\x1b[1;38;5;48m";
pub const MIMIC_CYAN: &'static str = "\x1b[38;5;51m";
pub const MIMIC_DIM: &'static str = "\x1b[38;5;242m";
pub const MIMIC_RESET: &'static str = "\x1b[0m";

/// `s` repeated `n` times (`str::repeat`).
pub open spec fn repeat(s: Seq<char>, n: nat) -> Seq<char>
    decreases n,
{
    if n == 0 {
        seq![]
    } else {
        repeat(s, (n - 1) as nat) + s
    }
}

/// The track after the cursor: `n` dots alternating between candy and plain,
/// shifted by half the animation tick.
pub open spec fn candy_track(n: nat, tick: u64) -> Seq<char>
    decreases n,
{
    if n == 0 {
        seq![]
    } else {
        let i = n - 1;
        candy_track((n - 1) as nat, tick) + if (i + (tick as usize) / 2) % 2 == 0 {
            "\x1b[38;5;51m•\x1b[0m"@
        } else {
            "\x1b[38;5;242m·\x1b[0m"@
        }
    }
}

/// `percent.clamp(0, 100)`.
pub open spec fn clamp_percent(p: i32) -> int {
    if p < 0 { 0 } else if p > 100 { 100 } else { p as int }
}

/// The progress bar: `width` cells, filled in proportion to the percentage, with
/// the crown as cursor and the candy track after it; a full bar when done.
pub open spec fn spec_candy_bar(percent: i32, width: usize, tick: u64) -> Seq<char> {
    let pct = clamp_percent(percent);
    let filled = (pct * width) / 100;
    if pct >= 100 {
        "\x1b[38;5;240m[\x1b[1;38;5;48m"@ + repeat("━"@, width as nat) + "\x1b[0m 👑\x1b[38;5;240m]\x1b[0m"@
    } else {
        let remaining: nat = if width >= filled + 1 { (width - filled - 1) as nat } else { 0 };
        "\x1b[38;5;240m[\x1b[1;38;5;48m"@ + repeat("━"@, filled as nat) + "\x1b[0m👑"@ + candy_track(
            remaining,
            tick,
        ) + "\x1b[38;5;240m]\x1b[0m"@
    }
}

fn repeat_into(v: &mut Vec<char>, s: &str, n: usize)
    ensures
        final(v)@ == old(v)@ + repeat(s@, n as nat),
{
    let mut i: usize = 0;
    while i < n
        invariant
            i <= n,
            v@ == old(v)@ + repeat(s@, i as nat),
        decreases n - i,
    {
        append_str(v, s);
        assert(repeat(s@, (i + 1) as nat) == repeat(s@, i as nat) + s@);
        i = i + 1;
    }
}

/// Builds the animated progress bar for `percent`, `width` cells wide.
pub fn build_candy_bar(percent: i32, width: usize, tick: u64) -> (bar: String)
    requires
        width <= usize::MAX / 100,
    ensures
        bar@ == spec_candy_bar(percent, width, tick),
{
    let pct: usize = if percent < 0 {
        0
    } else if percent > 100 {
        100
    } else {
        percent as usize
    };
    assert(pct * width <= 100 * width) by (nonlinear_arith)
        requires
            pct <= 100,
    ;
    let filled: usize = (pct * width) / 100;
    let mut v = chars_of("\x1b[38;5;240m[\x1b[1;38;5;48m");
    if pct >= 100 {
        repeat_into(&mut v, "━", width);
        append_str(&mut v, "\x1b[0m 👑\x1b[38;5;240m]\x1b[0m");
        return string_of(&v);
    }
    assert(filled <= width) by (nonlinear_arith)
        requires
            pct < 100,
            filled == (pct * width) / 100,
    ;
    repeat_into(&mut v, "━", filled);
    append_str(&mut v, "\x1b[0m👑");
    let remaining: usize = if width >= filled + 1 { width - filled - 1 } else { 0 };
    let half: usize = (tick as usize) / 2;
    let ghost before = v@;
    let mut i: usize = 0;
    while i < remaining
        invariant
            i <= remaining,
            remaining <= width,
            width <= usize::MAX / 100,
            half == (tick as usize) / 2,
            v@ == before + candy_track(i as nat, tick),
        decreases remaining - i,
    {
        if (i + half) % 2 == 0 {
            append_str(&mut v, "\x1b[38;5;51m•\x1b[0m");
        } else {
            append_str(&mut v, "\x1b[38;5;242m·\x1b[0m");
        }
        i = i + 1;
    }
    append_str(&mut v, "\x1b[38;5;240m]\x1b[0m");
    string_of(&v)
}

/// The share of a download done, in whole percent clamped to 100 (0 when the
/// size is unknown or nothing arrived).
pub open spec fn spec_download_percent(downloaded: i64, total: i64) -> int {
    if total > 0 && downloaded > 0 {
        let p = (downloaded * 100) / (total as int);
        if p > 100 { 100 } else { p }
    } else {
        0
    }
}

/// The whole percentage of a download, clamped to 0..=100.
pub fn download_percent(downloaded: i64, total: i64) -> (p: i32)
    requires
        downloaded * 100 <= i64::MAX,
    ensures
        p == spec_download_percent(downloaded, total),
{
    if total > 0 && downloaded > 0 {
        let d: u64 = downloaded as u64;
        let t: u64 = total as u64;
        let q: u64 = (d * 100) / t;
        if q > 100 {
            100
        } else {
            q as i32
        }
    } else {
        0
    }
}

/// Whether a download's progress is drawn: at most every 25 ms, and always at
/// completion.
pub fn should_render_download(ms_since_last_render: u64, downloaded: i64, total: i64) -> (b: bool)
    ensures
        b == (ms_since_last_render >= 25 || downloaded == total),
{
    ms_since_last_render >= 25 || downloaded == total
}

/// The steps of a transaction that report progress.
#[derive(Debug, Clone, Copy, PartialEq, Eq, Structural)]
pub enum ProgressStep {
    AddStart,
    UpgradeStart,
    DowngradeStart,
    ReinstallStart,
    RemoveStart,
    ConflictsStart,
    DiskspaceStart,
    IntegrityStart,
    LoadStart,
    KeyringStart,
}

/// The labels of a step while running and once done.
pub open spec fn spec_step_labels(p: ProgressStep) -> (Seq<char>, Seq<char>) {
    match p {
        ProgressStep::AddStart => ("Extracting"@, "Extracted"@),
        ProgressStep::UpgradeStart => ("Upgrading"@, "Upgraded"@),
        ProgressStep::DowngradeStart => ("Downgrading"@, "Downgraded"@),
        ProgressStep::ReinstallStart => ("Reinstalling"@, "Reinstalled"@),
        ProgressStep::RemoveStart => ("Removing"@, "Removed"@),
        ProgressStep::ConflictsStart => ("Checking conflicts"@, "Conflicts checked"@),
        ProgressStep::DiskspaceStart => ("Checking space"@, "Disk space verified"@),
        ProgressStep::IntegrityStart => ("Checking integrity"@, "Integrity verified"@),
        ProgressStep::LoadStart => ("Loading"@, "Loaded"@),
        ProgressStep::KeyringStart => ("Checking keyring"@, "Keyring verified"@),
    }
}

/// The labels of a step while running and once done.
pub fn step_labels(p: ProgressStep) -> (r: (&'static str, &'static str))
    ensures
        (r.0@, r.1@) == spec_step_labels(p),
{
    match p {
        ProgressStep::AddStart => ("Extracting", "Extracted"),
        ProgressStep::UpgradeStart => ("Upgrading", "Upgraded"),
        ProgressStep::DowngradeStart => ("Downgrading", "Downgraded"),
        ProgressStep::ReinstallStart => ("Reinstalling", "Reinstalled"),
        ProgressStep::RemoveStart => ("Removing", "Removed"),
        ProgressStep::ConflictsStart => ("Checking conflicts", "Conflicts checked"),
        ProgressStep::DiskspaceStart => ("Checking space", "Disk space verified"),
        ProgressStep::IntegrityStart => ("Checking integrity", "Integrity verified"),
        ProgressStep::LoadStart => ("Loading", "Loaded"),
        ProgressStep::KeyringStart => ("Checking keyring", "Keyring verified"),
    }
}

/// The tag of a step in plain (non-terminal) output: its running label
/// lowercased, with spaces made dashes.
pub fn plain_tag(action: &str) -> (t: String)
    ensures
        t@ == crate::text::replace(crate::text::lowercase(action@), " "@, "-"@),
{
    let l = crate::text::to_lowercase_chars(&chars_of(action));
    proof {
        reveal_strlit(" ");
    }
    let r = crate::text::replace_str(&l, " ", &chars_of("-"));
    string_of(&r)
}

} // verus!
