//! Streaming speech recognition with end-of-utterance detection.

pub mod android_log;
pub mod audio;
pub mod cache;
pub mod decoder_run;
pub mod decoding;
pub mod encoder_run;
pub mod error;
pub mod execution;
pub mod files;
pub mod frontend;
pub mod history;
pub mod layers;
pub mod layout;
pub mod litert;
pub mod litert_run;
pub mod model_eou;
pub mod opening;
pub mod optimized;
pub mod outlets;
pub mod parakeet_eou;
pub mod projected;
pub mod steps;
pub mod tensor;
pub mod text;
pub mod vocabulary;
pub mod words;
