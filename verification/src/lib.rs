//! Verified core of the Mimic package engine: build-resource budgeting,
//! pacman configuration handling and the text formats the engine reads and writes.

pub mod memory_guard;
pub mod text;
pub mod config;
pub mod forge;
pub mod micro_repo;
pub mod keyring;
pub mod sandbox;
pub mod brain;
pub mod scavenger;
pub mod git_source;
pub mod git_hunter;
pub mod assimilate;
pub mod ui;
pub mod arch_hunt;
pub mod elf_scan;
pub mod deb_hunt;
pub mod hunt_search;
pub mod graft;
pub mod psi;
pub mod aur;
pub mod alpm_plan;
pub mod cli;
pub mod laws;
pub mod table_laws;
