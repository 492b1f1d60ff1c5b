//! Playback control and text preparation for a document-to-speech reader.
//!
//! The heart of the crate is [`playback::Playback`], the bookkeeping that a
//! dedicated audio thread keeps while it serves commands sent through an
//! [`audio::AudioController`]. Speeds and volumes are whole thousandths, and
//! time is a count of nanoseconds read from a monotonic clock.
//!
//! Around it stand the pieces that prepare what is played: [`text`] splits
//! text into words and paragraphs, [`pdf_parser`] shapes the text of a
//! document, and [`tts_engine`] estimates when each word is spoken and
//! judges how a synthesis run ended.

pub mod audio;
pub mod pdf_parser;
pub mod playback;
pub mod text;
pub mod tts_engine;
