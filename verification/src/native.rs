//! Native engine model metadata.
//!
//! The native engine path loads a model with a known vocabulary size,
//! context length and sample rate; this module carries that metadata and
//! the language coverage of whisper-style models. Loading the weights and
//! running inference are outside collaborators.

use vstd::prelude::*;

use crate::strutil::str_eq;

verus! {

/// Metadata of one loaded native model.
#[derive(Debug, Clone, PartialEq)]
pub struct ModelInfo {
    pub model_id: String,
    pub vocab_size: usize,
    pub max_length: usize,
    pub sample_rate: u32,
}

/// A loaded native model, described by its metadata.
#[derive(Debug, Clone)]
pub struct NativeWhisperModel {
    pub info: ModelInfo,
}

/// The languages a whisper-style model transcribes.
pub open spec fn spec_supported_language(l: Seq<char>) -> bool {
    ||| l == "en"@
    ||| l == "es"@
    ||| l == "fr"@
    ||| l == "de"@
    ||| l == "it"@
    ||| l == "pt"@
    ||| l == "ru"@
    ||| l == "ja"@
    ||| l == "ko"@
    ||| l == "zh"@
    ||| l == "ar"@
    ||| l == "hi"@
    ||| l == "tr"@
    ||| l == "pl"@
    ||| l == "nl"@
    ||| l == "sv"@
    ||| l == "da"@
    ||| l == "no"@
    ||| l == "fi"@
}

impl NativeWhisperModel {
    /// The model's metadata.
    pub fn get_model_info(&self) -> (r: &ModelInfo)
        ensures
            *r == self.info,
    {
        &self.info
    }

    /// Whether the model transcribes the given language code.
    pub fn supports_language(&self, language: &str) -> (r: bool)
        ensures
            r == spec_supported_language(language@),
    {
        str_eq(language, "en") || str_eq(language, "es") || str_eq(language, "fr") || str_eq(
            language,
            "de",
        ) || str_eq(language, "it") || str_eq(language, "pt") || str_eq(language, "ru") || str_eq(
            language,
            "ja",
        ) || str_eq(language, "ko") || str_eq(language, "zh") || str_eq(language, "ar") || str_eq(
            language,
            "hi",
        ) || str_eq(language, "tr") || str_eq(language, "pl") || str_eq(language, "nl") || str_eq(
            language,
            "sv",
        ) || str_eq(language, "da") || str_eq(language, "no") || str_eq(language, "fi")
    }
}

/// Whether the engine transcribes in the source language or translates.
#[derive(Debug, Clone)]
pub enum TranscriptionTask {
    Transcribe,
    Translate,
}

} // verus!
