//! Analysis, phonological transformation and romanization of Hangul text.

pub mod hangul;
pub mod introductions;
pub mod jamo_stream;
pub mod lrc;
pub mod play;
pub mod pronunciation;
pub mod romanize;
pub mod text;
