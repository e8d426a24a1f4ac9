//! The library's error type.
//!
//! Every failure is carried as a variant with the diagnostic text that
//! produced it; outside failures (I/O, network, serialization) reach the
//! library only as their messages.

use vstd::prelude::*;

verus! {

/// One error anywhere in the system, with its diagnostic text.
#[derive(Debug, Clone)]
pub enum DattavaniError {
    Authentication(String),
    GoogleDrive(String),
    GoogleCloudStorage(String),
    AudioProcessing(String),
    VideoProcessing(String),
    Streaming(String),
    AsrProcessing(String),
    WhisperModel(String),
    FileIo(String),
    Network(String),
    Serialization(String),
    Configuration(String),
    Validation(String),
    UnsupportedFormat(String),
    Timeout(String),
    Concurrency(String),
    Memory(String),
    Ffmpeg(String),
    Unknown(String),
}

/// Mathematical image of `DattavaniError`.
pub enum DattavaniErrorView {
    Authentication(Seq<char>),
    GoogleDrive(Seq<char>),
    GoogleCloudStorage(Seq<char>),
    AudioProcessing(Seq<char>),
    VideoProcessing(Seq<char>),
    Streaming(Seq<char>),
    AsrProcessing(Seq<char>),
    WhisperModel(Seq<char>),
    FileIo(Seq<char>),
    Network(Seq<char>),
    Serialization(Seq<char>),
    Configuration(Seq<char>),
    Validation(Seq<char>),
    UnsupportedFormat(Seq<char>),
    Timeout(Seq<char>),
    Concurrency(Seq<char>),
    Memory(Seq<char>),
    Ffmpeg(Seq<char>),
    Unknown(Seq<char>),
}

impl View for DattavaniError {
    type V = DattavaniErrorView;

    open spec fn view(&self) -> DattavaniErrorView {
        match self {
            DattavaniError::Authentication(m) => DattavaniErrorView::Authentication(m@),
            DattavaniError::GoogleDrive(m) => DattavaniErrorView::GoogleDrive(m@),
            DattavaniError::GoogleCloudStorage(m) => DattavaniErrorView::GoogleCloudStorage(m@),
            DattavaniError::AudioProcessing(m) => DattavaniErrorView::AudioProcessing(m@),
            DattavaniError::VideoProcessing(m) => DattavaniErrorView::VideoProcessing(m@),
            DattavaniError::Streaming(m) => DattavaniErrorView::Streaming(m@),
            DattavaniError::AsrProcessing(m) => DattavaniErrorView::AsrProcessing(m@),
            DattavaniError::WhisperModel(m) => DattavaniErrorView::WhisperModel(m@),
            DattavaniError::FileIo(m) => DattavaniErrorView::FileIo(m@),
            DattavaniError::Network(m) => DattavaniErrorView::Network(m@),
            DattavaniError::Serialization(m) => DattavaniErrorView::Serialization(m@),
            DattavaniError::Configuration(m) => DattavaniErrorView::Configuration(m@),
            DattavaniError::Validation(m) => DattavaniErrorView::Validation(m@),
            DattavaniError::UnsupportedFormat(m) => DattavaniErrorView::UnsupportedFormat(m@),
            DattavaniError::Timeout(m) => DattavaniErrorView::Timeout(m@),
            DattavaniError::Concurrency(m) => DattavaniErrorView::Concurrency(m@),
            DattavaniError::Memory(m) => DattavaniErrorView::Memory(m@),
            DattavaniError::Ffmpeg(m) => DattavaniErrorView::Ffmpeg(m@),
            DattavaniError::Unknown(m) => DattavaniErrorView::Unknown(m@),
        }
    }
}

impl DattavaniError {
    /// An authentication failure.
    pub fn authentication(msg: &str) -> (r: DattavaniError)
        ensures
            r@ == DattavaniErrorView::Authentication(msg@),
    {
        DattavaniError::Authentication(msg.to_owned())
    }

    /// A Google Drive API failure.
    pub fn google_drive(msg: &str) -> (r: DattavaniError)
        ensures
            r@ == DattavaniErrorView::GoogleDrive(msg@),
    {
        DattavaniError::GoogleDrive(msg.to_owned())
    }

    /// A Google Cloud Storage failure.
    pub fn google_cloud_storage(msg: &str) -> (r: DattavaniError)
        ensures
            r@ == DattavaniErrorView::GoogleCloudStorage(msg@),
    {
        DattavaniError::GoogleCloudStorage(msg.to_owned())
    }

    /// An audio processing failure.
    pub fn audio_processing(msg: &str) -> (r: DattavaniError)
        ensures
            r@ == DattavaniErrorView::AudioProcessing(msg@),
    {
        DattavaniError::AudioProcessing(msg.to_owned())
    }

    /// A video processing failure.
    pub fn video_processing(msg: &str) -> (r: DattavaniError)
        ensures
            r@ == DattavaniErrorView::VideoProcessing(msg@),
    {
        DattavaniError::VideoProcessing(msg.to_owned())
    }

    /// A streaming failure.
    pub fn streaming(msg: &str) -> (r: DattavaniError)
        ensures
            r@ == DattavaniErrorView::Streaming(msg@),
    {
        DattavaniError::Streaming(msg.to_owned())
    }

    /// A speech-recognition processing failure.
    pub fn asr_processing(msg: &str) -> (r: DattavaniError)
        ensures
            r@ == DattavaniErrorView::AsrProcessing(msg@),
    {
        DattavaniError::AsrProcessing(msg.to_owned())
    }

    /// A failure in the speech-recognition model itself.
    pub fn whisper_model(msg: &str) -> (r: DattavaniError)
        ensures
            r@ == DattavaniErrorView::WhisperModel(msg@),
    {
        DattavaniError::WhisperModel(msg.to_owned())
    }

    /// A configuration failure.
    pub fn configuration(msg: &str) -> (r: DattavaniError)
        ensures
            r@ == DattavaniErrorView::Configuration(msg@),
    {
        DattavaniError::Configuration(msg.to_owned())
    }

    /// A validation failure.
    pub fn validation(msg: &str) -> (r: DattavaniError)
        ensures
            r@ == DattavaniErrorView::Validation(msg@),
    {
        DattavaniError::Validation(msg.to_owned())
    }

    /// An unsupported media format.
    pub fn unsupported_format(format: &str) -> (r: DattavaniError)
        ensures
            r@ == DattavaniErrorView::UnsupportedFormat(format@),
    {
        DattavaniError::UnsupportedFormat(format.to_owned())
    }

    /// A timeout.
    pub fn timeout(msg: &str) -> (r: DattavaniError)
        ensures
            r@ == DattavaniErrorView::Timeout(msg@),
    {
        DattavaniError::Timeout(msg.to_owned())
    }

    /// A concurrent-processing failure.
    pub fn concurrency(msg: &str) -> (r: DattavaniError)
        ensures
            r@ == DattavaniErrorView::Concurrency(msg@),
    {
        DattavaniError::Concurrency(msg.to_owned())
    }

    /// An out-of-memory condition.
    pub fn memory(msg: &str) -> (r: DattavaniError)
        ensures
            r@ == DattavaniErrorView::Memory(msg@),
    {
        DattavaniError::Memory(msg.to_owned())
    }

    /// A transcoder failure.
    pub fn ffmpeg(msg: &str) -> (r: DattavaniError)
        ensures
            r@ == DattavaniErrorView::Ffmpeg(msg@),
    {
        DattavaniError::Ffmpeg(msg.to_owned())
    }

    /// Any failure that fits no other kind.
    pub fn unknown(msg: &str) -> (r: DattavaniError)
        ensures
            r@ == DattavaniErrorView::Unknown(msg@),
    {
        DattavaniError::Unknown(msg.to_owned())
    }

    /// A file I/O failure, reduced to its message.
    pub fn file_io(msg: &str) -> (r: DattavaniError)
        ensures
            r@ == DattavaniErrorView::FileIo(msg@),
    {
        DattavaniError::FileIo(msg.to_owned())
    }

    /// A network failure, reduced to its message.
    pub fn network(msg: &str) -> (r: DattavaniError)
        ensures
            r@ == DattavaniErrorView::Network(msg@),
    {
        DattavaniError::Network(msg.to_owned())
    }

    /// A serialization failure, reduced to its message.
    pub fn serialization(msg: &str) -> (r: DattavaniError)
        ensures
            r@ == DattavaniErrorView::Serialization(msg@),
    {
        DattavaniError::Serialization(msg.to_owned())
    }
}

} // verus!
