//! Real-time spectral pipeline for a terminal audio visualiser.
//!
//! Samples are gathered into windows of a power-of-two length, each window is
//! taken through a radix-2 decimation-in-time transform, and the resulting
//! magnitudes are scaled and painted as a bar chart made of text.
//!
//! The arithmetic on complex amplitudes is supplied by the caller; this crate
//! owns the window discipline, the shape of the recursion, the scaling rule
//! and the layout of a frame, and, towards the capture source, the decoding
//! of raw bytes and the decisions of the waiting loops.

pub mod capture;
pub mod fft;
pub mod render;
pub mod window;
