//! Voice synthesis parameters, WAV measurement and normalization, and the
//! per-user voice bookkeeping of a text-to-speech chat bot.

pub mod message;
pub mod voice;
pub mod voice_allocator;
pub mod voice_manager;
pub mod wav;
