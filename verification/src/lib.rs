//! Core logic of a PipeWire virtual-surround configurator: scanning WAV
//! impulse-response files, indexing them by content checksum, and keeping a
//! generated sink-configuration file consistent with the chosen file.

pub mod csv;
pub mod descriptions;
pub mod index;
pub mod pwcli;
pub mod scanner;
pub mod session;
pub mod settings;
pub mod sink_config;
pub mod text;
pub mod wav;

use vstd::prelude::*;

verus! {

} // verus!
