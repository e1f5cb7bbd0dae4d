# mimic

The core of the Mimic package engine for Arch Linux, written in Verus: the
functions in `src/` carry contracts that the verifier proves. The exceptions
are the few small wrappers around calls into other crates (regex, xz2, flate2,
zstd, tar, ar, object, sha2) and std functions that Verus has no model of:
each is marked `#[verifier::external_body]`, its contract is believed rather
than proved, and its doc comment says what it claims of the call.

## Layout

- `src/` — the verified library:
  - `memory_guard`, `forge` — build-job budgeting and per-package memory plans
    from `/proc/meminfo` and `/proc/swaps` text.
  - `config` — `pacman.conf` and mirrorlist parsing, upstream and CachyOS
    repository completion, command-line overrides.
  - `sandbox` — the Bubblewrap container: its argument list, the container's
    pacman configuration, shims and paths.
  - `psi` — the memory-pressure sentinel as a state machine.
  - `git_source`, `git_hunter`, `aur`, `micro_repo` — source builds, AUR and
    GitHub-release package handling.
  - `keyring` — GnuPG listing parsing, fingerprints, dates, configuration files
    and the choice of keyrings to populate.
  - `brain` — build-log triage and package explanations.
  - `elf_scan`, `deb_hunt`, `arch_hunt`, `scavenger`, `graft`, `hunt_search`,
    `assimilate` — binary inspection, Debian/Arch package reading, dependency
    scavenging rounds and grafting decisions.
  - `alpm_plan`, `ui`, `cli`, `text` — transaction plans, progress rendering,
    command-line details and the text model everything above is stated in.
  - `laws` — properties that span several operations, proved once for all inputs.
- `tests/` — tests run against the compiled library.
- `app/` — the `mimic` and `mimic-brain` programs: command line, files, processes,
  network and libalpm, around the library.
