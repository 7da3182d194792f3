//! Caiman: verified core logic of a hyperconverged infrastructure platform.
use vstd::prelude::*;

pub mod acquire;
pub mod auth;
pub mod backup;
pub mod cli;
pub mod cni;
pub mod cni_flow;
pub mod demo;
pub mod drs;
pub mod gpu;
pub mod ids;
pub mod import;
pub mod kvm;
pub mod microseg;
pub mod procfs;
pub mod qcow2;
pub mod snapshots;
pub mod sorting;
pub mod style;
pub mod templates;
pub mod text;
pub mod vm;
pub mod vsan;
pub mod vvols;

verus! {

} // verus!
