//! Core of a game-audio asset editing tool.
//!
//! The library manipulates the structural in-memory models of two container
//! formats used by a commercial audio middleware: a SoundBank (an ordered list
//! of typed sections, among them an index of stream ids and a block of raw
//! stream data) and a Package (a header-resident table of stream entries
//! followed by a contiguous body of stream bytes).  It also plans two-hop
//! transcode paths between audio formats through external codec tools.
//!
//! Byte-level encoding and decoding of the containers, file and process I/O,
//! and loudness metering are left to the surrounding application; this crate
//! owns the editing rules and proves them.

pub mod bnk;
pub mod loose;
pub mod pck;
pub mod subprocess;
pub mod transcode;
