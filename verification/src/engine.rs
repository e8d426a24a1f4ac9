//! The transcription engine adapter's data shapes and normalization logic.
//!
//! The external engine hands back raw pieces: the transcribed text, an
//! optionally detected language, timed segments with optional per-segment
//! confidences, and an optional overall confidence. The adapter resolves
//! the effective language for an invocation and normalizes the raw pieces
//! into a `TranscriptionOutcome`; when the engine reports no overall
//! confidence, the adapter derives one as the arithmetic mean of the
//! per-segment confidences that are present, and leaves it absent when no
//! segment carries one (absence and zero confidence are distinct).

use vstd::prelude::*;

use crate::confidence::{valid_confidence, CONFIDENCE_SCALE};
use crate::models::ModelConfig;

verus! {

/// One timed piece of the transcription. `start` and `end` are
/// milliseconds; `confidence` is fixed-point, absent when the engine did
/// not score the segment.
#[derive(Debug, Clone, PartialEq)]
pub struct TranscriptionSegment {
    pub start: u64,
    pub end: u64,
    pub text: String,
    pub confidence: Option<u32>,
}

/// Mathematical image of `TranscriptionSegment`.
#[verifier::ext_equal]
pub struct TranscriptionSegmentView {
    pub start: u64,
    pub end: u64,
    pub text: Seq<char>,
    pub confidence: Option<u32>,
}

impl View for TranscriptionSegment {
    type V = TranscriptionSegmentView;

    open spec fn view(&self) -> TranscriptionSegmentView {
        TranscriptionSegmentView {
            start: self.start,
            end: self.end,
            text: self.text@,
            confidence: self.confidence,
        }
    }
}

/// The views of a sequence of segments.
pub open spec fn segments_view(s: Seq<TranscriptionSegment>) -> Seq<TranscriptionSegmentView> {
    s.map_values(|x: TranscriptionSegment| x@)
}

/// Every present segment confidence is a valid fixed-point value.
pub open spec fn segments_wf(s: Seq<TranscriptionSegmentView>) -> bool {
    forall|i: int|
        0 <= i < s.len() ==> match (#[trigger] s[i]).confidence {
            Some(c) => valid_confidence(c),
            None => true,
        }
}

/// A successful engine invocation, normalized.
#[derive(Debug, Clone, PartialEq)]
pub struct TranscriptionOutcome {
    pub text: String,
    pub language: Option<String>,
    pub segments: Vec<TranscriptionSegment>,
    pub confidence: Option<u32>,
}

/// Mathematical image of `TranscriptionOutcome`.
#[verifier::ext_equal]
pub struct TranscriptionOutcomeView {
    pub text: Seq<char>,
    pub language: Option<Seq<char>>,
    pub segments: Seq<TranscriptionSegmentView>,
    pub confidence: Option<u32>,
}

impl View for TranscriptionOutcome {
    type V = TranscriptionOutcomeView;

    open spec fn view(&self) -> TranscriptionOutcomeView {
        TranscriptionOutcomeView {
            text: self.text@,
            language: match self.language {
                Some(l) => Some(l@),
                None => None,
            },
            segments: segments_view(self.segments@),
            confidence: self.confidence,
        }
    }
}

impl TranscriptionOutcomeView {
    /// A well-formed outcome carries only valid confidences.
    pub open spec fn wf(self) -> bool {
        &&& segments_wf(self.segments)
        &&& match self.confidence {
            Some(c) => valid_confidence(c),
            None => true,
        }
    }
}

/// A failed engine invocation: the backend's diagnostic text, normalized
/// into one message. No backend-specific error type crosses this boundary.
#[derive(Debug, Clone, PartialEq)]
pub struct EngineError {
    pub message: String,
}

impl View for EngineError {
    type V = Seq<char>;

    open spec fn view(&self) -> Seq<char> {
        self.message@
    }
}

/// The number of segments in `s` that carry a confidence.
pub open spec fn count_scored(s: Seq<TranscriptionSegmentView>) -> int
    decreases s.len(),
{
    if s.len() == 0 {
        0
    } else {
        count_scored(s.drop_last()) + if s.last().confidence is Some {
            1int
        } else {
            0int
        }
    }
}

/// The sum of the confidences that are present in `s`.
pub open spec fn sum_scored(s: Seq<TranscriptionSegmentView>) -> int
    decreases s.len(),
{
    if s.len() == 0 {
        0
    } else {
        sum_scored(s.drop_last()) + match s.last().confidence {
            Some(c) => c as int,
            None => 0int,
        }
    }
}

/// The adapter's derived overall confidence: the arithmetic mean of the
/// present per-segment confidences, absent when no segment carries one.
pub open spec fn mean_confidence(s: Seq<TranscriptionSegmentView>) -> Option<u32> {
    if count_scored(s) == 0 {
        None
    } else {
        Some((sum_scored(s) / count_scored(s)) as u32)
    }
}

/// Counts are non-negative and sums are bounded by the count times the
/// scale, for well-formed segments.
pub proof fn lemma_scored_bounds(s: Seq<TranscriptionSegmentView>)
    requires
        segments_wf(s),
    ensures
        0 <= count_scored(s) <= s.len(),
        0 <= sum_scored(s) <= count_scored(s) * CONFIDENCE_SCALE,
    decreases s.len(),
{
    if s.len() > 0 {
        let init = s.drop_last();
        assert(segments_wf(init)) by {
            assert(forall|i: int| 0 <= i < init.len() ==> init[i] == s[i]);
        }
        lemma_scored_bounds(init);
        assert(s[s.len() - 1] == s.last());
        assert(count_scored(init) * CONFIDENCE_SCALE + CONFIDENCE_SCALE == (count_scored(init)
            + 1) * CONFIDENCE_SCALE) by (nonlinear_arith);
    }
}

/// The arithmetic mean of the present per-segment confidences, absent when
/// no segment carries a confidence. The mean of valid confidences is
/// itself a valid confidence.
pub fn aggregate_confidence(segments: &Vec<TranscriptionSegment>) -> (r: Option<u32>)
    requires
        segments_wf(segments_view(segments@)),
    ensures
        r == mean_confidence(segments_view(segments@)),
        match r {
            Some(c) => valid_confidence(c),
            None => true,
        },
{
    let ghost full = segments_view(segments@);
    let mut sum: u128 = 0;
    let mut count: u64 = 0;
    let mut i: usize = 0;
    proof {
        lemma_scored_bounds(full);
    }
    while i < segments.len()
        invariant
            0 <= i <= segments@.len(),
            full == segments_view(segments@),
            segments_wf(full),
            count as int == count_scored(full.take(i as int)),
            sum as int == sum_scored(full.take(i as int)),
            count <= i,
            sum <= count as u128 * (CONFIDENCE_SCALE as u128),
        decreases segments@.len() - i,
    {
        proof {
            lemma_scored_bounds(full.take(i as int));
            assert(full.take(i + 1).drop_last() =~= full.take(i as int));
            assert(full.take(i + 1).last() == full[i as int]);
            assert(full[i as int] == segments@[i as int]@);
            assert(count_scored(full.take(i as int)) <= i < u64::MAX);
            assert((count as u128 + 1) * (CONFIDENCE_SCALE as u128) == count as u128 * (
            CONFIDENCE_SCALE as u128) + CONFIDENCE_SCALE as u128) by (nonlinear_arith);
        }
        match segments[i].confidence {
            Some(c) => {
                sum = sum + c as u128;
                count = count + 1;
            },
            None => {},
        }
        i = i + 1;
    }
    proof {
        assert(full.take(full.len() as int) =~= full);
    }
    if count == 0 {
        None
    } else {
        let mean: u128 = sum / (count as u128);
        proof {
            assert(sum as int / count as int <= CONFIDENCE_SCALE as int) by (nonlinear_arith)
                requires
                    0 < count as int,
                    0 <= sum as int <= count as int * (CONFIDENCE_SCALE as int),
            ;
            assert(mean as int == sum as int / count as int);
        }
        Some(mean as u32)
    }
}

/// The effective language for one engine invocation: the caller's explicit
/// hint when present, else the model's own language affinity, else absent,
/// which asks the engine to auto-detect.
pub fn resolve_language(language_hint: Option<&str>, model: &ModelConfig) -> (r: Option<String>)
    ensures
        ({
            let rv = match r {
                Some(l) => Some(l@),
                None => None::<Seq<char>>,
            };
            rv == match language_hint {
                Some(h) => Some(h@),
                None => model@.language,
            }
        }),
{
    match language_hint {
        Some(h) => Some(h.to_owned()),
        None => match &model.language {
            Some(l) => Some(l.clone()),
            None => None,
        },
    }
}

/// Normalizes a successful engine invocation: the overall confidence is
/// the engine's own report when present, else the mean of the per-segment
/// confidences; the language is the engine's detected language when
/// present, else the language the invocation was resolved to.
pub fn normalize_outcome(
    text: String,
    detected_language: Option<String>,
    resolved_language: Option<String>,
    segments: Vec<TranscriptionSegment>,
    reported_confidence: Option<u32>,
) -> (r: TranscriptionOutcome)
    requires
        segments_wf(segments_view(segments@)),
        match reported_confidence {
            Some(c) => valid_confidence(c),
            None => true,
        },
    ensures
        r@.text == text@,
        r@.segments == segments_view(segments@),
        r@.confidence == match reported_confidence {
            Some(c) => Some(c),
            None => mean_confidence(segments_view(segments@)),
        },
        r@.language == match (detected_language, resolved_language) {
            (Some(d), _) => Some(d@),
            (None, Some(l)) => Some(l@),
            (None, None) => None::<Seq<char>>,
        },
        r@.wf(),
{
    let confidence: Option<u32> = match reported_confidence {
        Some(c) => Some(c),
        None => aggregate_confidence(&segments),
    };
    let language: Option<String> = match detected_language {
        Some(d) => Some(d),
        None => resolved_language,
    };
    TranscriptionOutcome { text, language, segments, confidence }
}

/// An exact copy of a vector of segments.
pub(crate) fn duplicate_segments(v: &Vec<TranscriptionSegment>) -> (r: Vec<TranscriptionSegment>)
    ensures
        segments_view(r@) == segments_view(v@),
{
    let mut out: Vec<TranscriptionSegment> = Vec::new();
    let mut i: usize = 0;
    while i < v.len()
        invariant
            0 <= i <= v@.len(),
            out@.len() == i,
            forall|k: int| 0 <= k < i ==> out@[k]@ == v@[k]@,
        decreases v@.len() - i,
    {
        let s = &v[i];
        out.push(
            TranscriptionSegment {
                start: s.start,
                end: s.end,
                text: s.text.clone(),
                confidence: s.confidence,
            },
        );
        i = i + 1;
    }
    proof {
        assert(segments_view(out@) =~= segments_view(v@));
    }
    out
}

impl TranscriptionOutcome {
    /// An exact copy: the result's view equals this value's view.
    pub fn duplicate(&self) -> (r: TranscriptionOutcome)
        ensures
            r@ == self@,
    {
        let language: Option<String> = match &self.language {
            Some(l) => Some(l.clone()),
            None => None,
        };
        let r = TranscriptionOutcome {
            text: self.text.clone(),
            language,
            segments: duplicate_segments(&self.segments),
            confidence: self.confidence,
        };
        proof {
            assert(r@ =~= self@);
        }
        r
    }
}

/// The final shape handed to callers for one transcription.
///
/// `processing_time` is milliseconds; `confidence` is fixed-point.
#[derive(Debug, Clone, PartialEq)]
pub struct TranscriptionResult {
    pub success: bool,
    pub text: Option<String>,
    pub error: Option<String>,
    pub processing_time: Option<u64>,
    pub confidence: Option<u32>,
    pub language: Option<String>,
    pub segments: Option<Vec<TranscriptionSegment>>,
    pub file_path: Option<String>,
}

/// Mathematical image of `TranscriptionResult`.
#[verifier::ext_equal]
pub struct TranscriptionResultView {
    pub success: bool,
    pub text: Option<Seq<char>>,
    pub error: Option<Seq<char>>,
    pub processing_time: Option<u64>,
    pub confidence: Option<u32>,
    pub language: Option<Seq<char>>,
    pub segments: Option<Seq<TranscriptionSegmentView>>,
    pub file_path: Option<Seq<char>>,
}

impl View for TranscriptionResult {
    type V = TranscriptionResultView;

    open spec fn view(&self) -> TranscriptionResultView {
        TranscriptionResultView {
            success: self.success,
            text: match self.text {
                Some(t) => Some(t@),
                None => None,
            },
            error: match self.error {
                Some(e) => Some(e@),
                None => None,
            },
            processing_time: self.processing_time,
            confidence: self.confidence,
            language: match self.language {
                Some(l) => Some(l@),
                None => None,
            },
            segments: match &self.segments {
                Some(s) => Some(segments_view(s@)),
                None => None,
            },
            file_path: match self.file_path {
                Some(p) => Some(p@),
                None => None,
            },
        }
    }
}

} // verus!
