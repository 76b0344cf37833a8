//! A terminal-rendered first-person raycasting demo, verified.
//!
//! The library holds everything that can be reasoned about: fixed-point
//! arithmetic (positions in millionths of a grid cell, headings in
//! millidegrees), the column-by-column raycasting renderer, the per-frame
//! input/physics state machine, and the bookkeeping of the exclusive raw
//! terminal session. The raw terminal calls themselves live outside the
//! library and hand plain values in and out.

pub mod fixed;
pub mod frame;
pub mod game;
pub mod term;
