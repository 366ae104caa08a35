//! A verified core for streaming a shared-memory framebuffer to a
//! pixel-drawing sink: header parsing, grid partitioning, cursor
//! arithmetic, draw-command formatting, per-chunk send-loop logic and
//! tick pacing. The surrounding process supplies the region bytes and
//! the connections and performs the actual I/O.

pub mod command;
pub mod cursor;
pub mod error;
pub mod header;
pub mod pacing;
pub mod partition;
pub mod sendloop;
