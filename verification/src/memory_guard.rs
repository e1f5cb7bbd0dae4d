//! Build concurrency and compiler-flag budgeting from the machine's memory.

use vstd::prelude::*;
use crate::text::{
    chars_of, lines, lines_from, next_line, nth, nth_word, parse_u64, parse_u64_chars, slice_chars,
    starts_with, starts_with_str, words,
};

verus! {

/// MiB of RAM budgeted for each parallel compiler job.
pub const MIB_PER_JOB: u64 = 1536;

/// Machines with at most this many MiB of RAM are treated as low-memory.
pub const LOW_RAM_LIMIT_MIB: u64 = 8192;

/// The resource plan handed to the sandbox for one build.
#[derive(Debug, Clone)]
pub struct MemoryProfile {
    pub total_ram_mib: u64,
    pub safe_jobs: usize,
    pub is_low_ram: bool,
    pub cflags: String,
    pub cxxflags: String,
    pub rustflags: String,
    pub tuning_desc: String,
}

pub struct MemoryGuard;

/// The upper bound on jobs: all cores but one, and never less than one.
pub open spec fn max_jobs(nproc: usize) -> int {
    if nproc <= 1 { 1 } else { nproc - 1 }
}

/// `(total_ram_mib / 1536).clamp(1, max_jobs(nproc))`.
pub open spec fn spec_safe_jobs(total_ram_mib: u64, nproc: usize) -> int {
    let by_ram: int = (total_ram_mib as int) / (MIB_PER_JOB as int);
    if by_ram < 1 {
        1
    } else if by_ram > max_jobs(nproc) {
        max_jobs(nproc)
    } else {
        by_ram
    }
}

impl MemoryGuard {
    /// Budgets compilation jobs and chooses optimisation flags for a machine with
    /// `total_ram_mib` MiB of RAM and `nproc` hardware threads.
    pub fn assess_for_ram(total_ram_mib: u64, nproc: usize) -> (p: MemoryProfile)
        ensures
            p.total_ram_mib == total_ram_mib,
            p.safe_jobs == spec_safe_jobs(total_ram_mib, nproc),
            p.is_low_ram == (total_ram_mib <= LOW_RAM_LIMIT_MIB),
            p.is_low_ram ==> {
                &&& p.cflags@ == "-march=native -O2 -pipe -fno-plt"@
                &&& p.cxxflags@ == "-march=native -O2 -pipe -fno-plt"@
                &&& p.rustflags@ == "-C target-cpu=native -C opt-level=2"@
                &&& p.tuning_desc@ == "-march=native -O2 -pipe (LTO disabled for RAM <= 8 GiB)"@
            },
            !p.is_low_ram ==> {
                &&& p.cflags@ == "-march=native -O3 -pipe -fno-plt -flto=auto"@
                &&& p.cxxflags@ == "-march=native -O3 -pipe -fno-plt -flto=auto"@
                &&& p.rustflags@ == "-C target-cpu=native -C opt-level=3"@
                &&& p.tuning_desc@ == "-march=native -O3 -pipe -flto=auto"@
            },
    {
        let max_jobs: usize = if nproc <= 1 { 1 } else { nproc - 1 };
        let by_ram: u64 = total_ram_mib / MIB_PER_JOB;
        let safe_jobs: usize = if by_ram < 1 {
            1
        } else if by_ram > max_jobs as u64 {
            max_jobs
        } else {
            by_ram as usize
        };
        let is_low_ram = total_ram_mib <= LOW_RAM_LIMIT_MIB;
        if is_low_ram {
            MemoryProfile {
                total_ram_mib,
                safe_jobs,
                is_low_ram,
                cflags: String::from_str("-march=native -O2 -pipe -fno-plt"),
                cxxflags: String::from_str("-march=native -O2 -pipe -fno-plt"),
                rustflags: String::from_str("-C target-cpu=native -C opt-level=2"),
                tuning_desc: String::from_str("-march=native -O2 -pipe (LTO disabled for RAM <= 8 GiB)"),
            }
        } else {
            MemoryProfile {
                total_ram_mib,
                safe_jobs,
                is_low_ram,
                cflags: String::from_str("-march=native -O3 -pipe -fno-plt -flto=auto"),
                cxxflags: String::from_str("-march=native -O3 -pipe -fno-plt -flto=auto"),
                rustflags: String::from_str("-C target-cpu=native -C opt-level=3"),
                tuning_desc: String::from_str("-march=native -O3 -pipe -flto=auto"),
            }
        }
    }
}


/// The `MemTotal` figure (in KiB) of the first `/proc/meminfo` line that starts
/// with `MemTotal:` and whose second word is a number.
pub open spec fn meminfo_total_kb(ls: Seq<Seq<char>>) -> Option<u64>
    decreases ls.len(),
{
    if ls.len() == 0 {
        None
    } else {
        let l = ls[0];
        match nth(words(l), 1) {
            Some(w) => if starts_with(l, "MemTotal:"@) && parse_u64(w).is_some() {
                parse_u64(w)
            } else {
                meminfo_total_kb(ls.drop_first())
            },
            None => meminfo_total_kb(ls.drop_first()),
        }
    }
}

/// Total RAM in MiB from the text of `/proc/meminfo`, or 8192 when it is
/// unreadable or names no total.
pub open spec fn spec_total_ram_mib(meminfo: Option<Seq<char>>) -> u64 {
    match meminfo {
        Some(text) => match meminfo_total_kb(lines(text)) {
            Some(kb) => (kb / 1024) as u64,
            None => 8192,
        },
        None => 8192,
    }
}

/// The processor count to plan with: the one reported, or 4 when none is.
pub open spec fn spec_nproc(reported: Option<usize>) -> usize {
    match reported {
        Some(n) => n,
        None => 4,
    }
}

impl MemoryGuard {
    /// Total RAM in MiB, from the text of `/proc/meminfo` (`None` when it could not
    /// be read); 8192 when no total can be found.
    pub fn read_total_ram_mib(meminfo: Option<&str>) -> (mib: u64)
        ensures
            mib == spec_total_ram_mib(match meminfo {
                Some(t) => Some(t@),
                None => None,
            }),
    {
        let text = match meminfo {
            Some(t) => t,
            None => {
                return 8192;
            },
        };
        let v = chars_of(text);
        let mut pos: usize = 0;
        while pos < v.len()
            invariant
                pos <= v.len(),
                meminfo == Some(text),
                v@ == text@,
                meminfo_total_kb(lines(v@)) == meminfo_total_kb(lines_from(v@, pos as int)),
            decreases v.len() - pos,
        {
            let (e, next) = next_line(&v, pos);
            let line = slice_chars(&v, pos, e);
            let ghost ls = lines_from(v@, pos as int);
            assert(ls[0] == line@ && ls.drop_first() == lines_from(v@, next as int));
            if starts_with_str(&line, "MemTotal:") {
                match nth_word(&line, 1) {
                    Some(w) => {
                        match parse_u64_chars(&w) {
                            Some(kb) => {
                                assert(meminfo_total_kb(ls) == Some(kb));
                                return kb / 1024;
                            },
                            None => {},
                        }
                    },
                    None => {},
                }
            }
            pos = next;
        }
        assert(lines_from(v@, pos as int) == Seq::<Seq<char>>::empty());
        8192
    }

    /// The build plan for this machine: RAM from the text of `/proc/meminfo` and
    /// the processor count the system reports (4 when it reports none).
    pub fn assess(meminfo: Option<&str>, reported_nproc: Option<usize>) -> (p: MemoryProfile)
        ensures
            p.total_ram_mib == spec_total_ram_mib(match meminfo {
                Some(t) => Some(t@),
                None => None,
            }),
            p.safe_jobs == spec_safe_jobs(p.total_ram_mib, spec_nproc(reported_nproc)),
            p.is_low_ram == (p.total_ram_mib <= LOW_RAM_LIMIT_MIB),
    {
        let total = Self::read_total_ram_mib(meminfo);
        let nproc: usize = match reported_nproc {
            Some(n) => n,
            None => 4,
        };
        Self::assess_for_ram(total, nproc)
    }
}

} // verus!
