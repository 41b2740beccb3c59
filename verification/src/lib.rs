//! A verified core for a live H.264 byte-stream glitcher.
//!
//! The library covers the Annex-B splitter, the NAL/RBSP codec, the
//! Exp-Golomb bitstream primitives, the SPS / PPS / slice-header parsers,
//! the beat predictor, the sigma-delta frame-repeat quantizer, the
//! change-tracked OSC variable protocol and the streaming engine's
//! per-tick state machine.  I/O, sockets, threads and clocks live in the
//! surrounding application, which feeds this library plain values.

pub mod beat_predictor;
pub mod engine;
pub mod bitio;
pub mod h264;
pub mod nal;
pub mod nal_iterator;
pub mod osc_var;
pub mod parse_h264;
pub mod parse_nal;
pub mod pps;
pub mod sigma_delta;
pub mod slice_header;
pub mod sps;
pub mod state;
