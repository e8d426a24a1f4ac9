//! Options for the simple, single-model transcription path.
//!
//! The simple path invokes one engine once, without the fallback loop;
//! the invocation itself (finding the executable, spawning it, reading
//! its output) is an outside concern. These are the options it is driven
//! with, and the name wrapper the native single-model path uses.

use vstd::prelude::*;

verus! {

/// Options for one simple transcription: the model name, an optional
/// language, a timeout in seconds, the requested output format, and
/// whether the engine should be verbose.
#[derive(Debug, Clone, PartialEq)]
pub struct SimpleTranscriptionOptions {
    pub model: String,
    pub language: Option<String>,
    pub timeout_seconds: u64,
    pub output_format: String,
    pub verbose: bool,
}

impl Default for SimpleTranscriptionOptions {
    /// The standard options: the `base` model, English, a five-minute
    /// timeout, plain-text output, quiet.
    fn default() -> (r: SimpleTranscriptionOptions)
        ensures
            r.model@ == "base"@,
            r.language matches Some(l) && l@ == "en"@,
            r.timeout_seconds == 300u64,
            r.output_format@ == "txt"@,
            r.verbose == false,
    {
        SimpleTranscriptionOptions {
            model: "base".to_owned(),
            language: Some("en".to_owned()),
            timeout_seconds: 300,
            output_format: "txt".to_owned(),
            verbose: false,
        }
    }
}

/// A named native model for the single-model path.
#[derive(Debug, Clone)]
pub struct SimpleNativeWhisper {
    model_name: String,
}

impl SimpleNativeWhisper {
    /// The name of the model this wrapper invokes.
    pub closed spec fn spec_model_name(&self) -> Seq<char> {
        self.model_name@
    }

    /// Wraps a model name for the single-model path.
    pub fn new(model_name: String) -> (r: SimpleNativeWhisper)
        ensures
            r.spec_model_name() == model_name@,
    {
        SimpleNativeWhisper { model_name }
    }

    /// The wrapped model name.
    pub fn model_name(&self) -> (r: &String)
        ensures
            r@ == self.spec_model_name(),
    {
        &self.model_name
    }
}

} // verus!
