//! The memory-pressure sentinel: which figures of `/proc/pressure/memory` it
//! reads, and when it freezes or resumes the build's process group.

use vstd::prelude::*;
use crate::config::strings_view;
use crate::assimilate::trim_start_matches;
use crate::text::{chars_of, lines, lines_of, starts_with, starts_with_str, string_of, vecs_view, words, words_of};

verus! {

/// The first word of a line that starts with `avg10=`.
pub open spec fn first_avg10(ws: Seq<Seq<char>>) -> Option<Seq<char>>
    decreases ws.len(),
{
    if ws.len() == 0 {
        None
    } else if starts_with(ws[0], "avg10="@) {
        Some(ws[0])
    } else {
        first_avg10(ws.drop_first())
    }
}

/// The `avg10` figures (as text) of the `some` lines of a pressure file.
pub open spec fn avg10_texts(ls: Seq<Seq<char>>) -> Seq<Seq<char>>
    decreases ls.len(),
{
    if ls.len() == 0 {
        seq![]
    } else {
        let rest = avg10_texts(ls.drop_last());
        let l = ls.last();
        if starts_with(l, "some "@) {
            match first_avg10(words(l)) {
                Some(w) => rest.push(trim_start_matches(w, "avg10="@)),
                None => rest,
            }
        } else {
            rest
        }
    }
}

/// The `avg10` figures, as text, of the `some` lines of `/proc/pressure/memory`.
pub fn avg10_fields(content: &str) -> (r: Vec<String>)
    ensures
        strings_view(r@) == avg10_texts(lines(content@)),
{
    let ls = lines_of(&chars_of(content));
    let ghost sl = lines(content@);
    let mut r: Vec<String> = Vec::new();
    let mut i: usize = 0;
    assert(sl.take(0) =~= Seq::<Seq<char>>::empty());
    while i < ls.len()
        invariant
            i <= ls.len(),
            sl == vecs_view(ls@),
            sl == lines(content@),
            strings_view(r@) == avg10_texts(sl.take(i as int)),
        decreases ls.len() - i,
    {
        assert(sl.take(i + 1).drop_last() == sl.take(i as int));
        assert(sl.take(i + 1).last() == ls@[i as int]@);
        if starts_with_str(&ls[i], "some ") {
            let ws = words_of(&ls[i]);
            let ghost wv = vecs_view(ws@);
            let mut k: usize = 0;
            assert(wv.skip(0) == wv);
            while k < ws.len() && !starts_with_str(&ws[k], "avg10=")
                invariant
                    k <= ws.len(),
                    wv == vecs_view(ws@),
                    first_avg10(wv) == first_avg10(wv.skip(k as int)),
                decreases ws.len() - k,
            {
                assert(wv.skip(k as int)[0] == ws@[k as int]@);
                assert(wv.skip(k as int).drop_first() == wv.skip(k + 1));
                k = k + 1;
            }
            if k < ws.len() {
                assert(wv.skip(k as int)[0] == ws@[k as int]@);
                let w = string_of(&ws[k]);
                let t = crate::assimilate::strip_prey_prefix(w.as_str(), "avg10=");
                let ghost b = strings_view(r@);
                r.push(t);
                assert(strings_view(r@) == b.push(trim_start_matches(ws@[k as int]@, "avg10="@)));
            } else {
                assert(wv.skip(k as int).len() == 0);
            }
        }
        i = i + 1;
    }
    assert(sl.take(i as int) == sl);
    r
}

/// What the sentinel does to the build's process group.
#[derive(Debug, Clone, Copy, PartialEq, Eq, Structural)]
pub enum PsiAction {
    /// Leave it as it is.
    Wait,
    /// Freeze it (`SIGSTOP`).
    Freeze,
    /// Resume it (`SIGCONT`).
    Resume,
}

/// One reading's effect on a sentinel that has (`frozen`) or has not frozen the
/// build: whether it has afterwards, and what it does.
pub open spec fn psi_step(frozen: bool, pressure_high: Option<bool>) -> (bool, PsiAction) {
    match pressure_high {
        Some(true) => if frozen { (true, PsiAction::Wait) } else { (true, PsiAction::Freeze) },
        Some(false) => if frozen { (false, PsiAction::Resume) } else { (false, PsiAction::Wait) },
        None => (frozen, PsiAction::Wait),
    }
}

/// The signals a sentinel sends over a run of readings, the one it sends when
/// it stops included.
pub open spec fn psi_signals(frozen: bool, readings: Seq<Option<bool>>) -> Seq<PsiAction>
    decreases readings.len(),
{
    if readings.len() == 0 {
        if frozen { seq![PsiAction::Resume] } else { seq![] }
    } else {
        let (f, a) = psi_step(frozen, readings[0]);
        let rest = psi_signals(f, readings.drop_first());
        if a == PsiAction::Wait { rest } else { seq![a] + rest }
    }
}

/// The sentinel's state: whether it froze the build, and how long it sleeps
/// between readings while the build runs freely.
#[derive(Debug, Clone, Copy)]
pub struct PsiMonitor {
    pub frozen: bool,
    pub idle_poll_ms: u64,
}

impl PsiMonitor {
    /// A sentinel that has frozen nothing and polls every `idle_poll_ms` ms.
    pub fn new(idle_poll_ms: u64) -> (m: PsiMonitor)
        ensures
            !m.frozen,
            m.idle_poll_ms == idle_poll_ms,
    {
        PsiMonitor { frozen: false, idle_poll_ms }
    }

    /// One reading: `None` when the pressure file could not be read, else whether
    /// some `avg10` figure was over the threshold. High pressure freezes a running
    /// build, low pressure resumes a frozen one.
    pub fn observe(&mut self, pressure_high: Option<bool>) -> (a: PsiAction)
        ensures
            final(self).idle_poll_ms == old(self).idle_poll_ms,
            (final(self).frozen, a) == psi_step(old(self).frozen, pressure_high),
            match pressure_high {
                Some(true) => if !old(self).frozen {
                    a == PsiAction::Freeze && final(self).frozen
                } else {
                    a == PsiAction::Wait && final(self).frozen
                },
                Some(false) => if old(self).frozen {
                    a == PsiAction::Resume && !final(self).frozen
                } else {
                    a == PsiAction::Wait && !final(self).frozen
                },
                None => a == PsiAction::Wait && final(self).frozen == old(self).frozen,
            },
    {
        match pressure_high {
            Some(true) => {
                if !self.frozen {
                    self.frozen = true;
                    PsiAction::Freeze
                } else {
                    PsiAction::Wait
                }
            },
            Some(false) => {
                if self.frozen {
                    self.frozen = false;
                    PsiAction::Resume
                } else {
                    PsiAction::Wait
                }
            },
            None => PsiAction::Wait,
        }
    }

    /// How long to sleep before the next reading: 1 s while frozen.
    pub fn poll_ms(&self) -> (ms: u64)
        ensures
            ms == if self.frozen { 1000 } else { self.idle_poll_ms },
    {
        if self.frozen {
            1000
        } else {
            self.idle_poll_ms
        }
    }

    /// What to do when the sentinel stops: resume a frozen build.
    pub fn finish(&self) -> (a: PsiAction)
        ensures
            a == if self.frozen { PsiAction::Resume } else { PsiAction::Wait },
    {
        if self.frozen {
            PsiAction::Resume
        } else {
            PsiAction::Wait
        }
    }
}

} // verus!
