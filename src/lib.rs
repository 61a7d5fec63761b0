//! Demultiplexing of MPEG-2 transport streams: packet framing with continuity
//! tracking, PSI section reassembly with PAT and PMT decoding, PES reassembly
//! and elementary stream selection.

pub mod error;
pub mod types;
pub mod crc;
pub mod es;
pub mod pmt;
pub mod pat;
pub mod pes;
pub mod psi;
pub mod ts;
