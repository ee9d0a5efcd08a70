//! Real-time audio analysis core: re-segmentation of an irregular sample
//! stream into fixed-length windows, spectral peak selection, pitch naming
//! and frame numbering.

pub mod audio_buffer;
pub mod fourier;
pub mod notes;
pub mod scores;
pub mod segmentation;
