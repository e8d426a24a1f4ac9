//! The fallback orchestrator.
//!
//! Given the selected candidate identifiers, the orchestrator drives the
//! attempt loop: candidates are tried strictly one at a time, every attempt
//! (success or failure) is recorded in order, and the loop stops early when
//! a result meets its own model's confidence threshold, or — when
//! confidence fallback is disabled — as soon as any successful result
//! exists. When no result meets its threshold the best result seen so far
//! is still returned (the salvage policy); ties keep the earlier, higher
//! priority candidate, and only a strictly greater confidence replaces the
//! running best. A success without a confidence can become the running best
//! only when none exists yet, and never triggers the early exit.
//!
//! The engine invocation itself is the caller's collaborator: the caller
//! asks which model to run, invokes the engine, and hands the outcome back.
//! Every decision in between is made here.

use vstd::prelude::*;

use crate::confidence::comparison_value;
use crate::engine::{
    EngineError, TranscriptionOutcome, TranscriptionOutcomeView, TranscriptionResult,
    TranscriptionResultView,
};
use crate::models::{
    find_model, strings_view, ModelConfig, ModelConfigView, ModelRegistry, ModelRegistryView,
};
use crate::selector::{opt_str_view, spec_candidates};

verus! {

/// How many candidates are tried when the caller gives no bound.
pub const DEFAULT_MAX_ATTEMPTS: usize = 3;

/// One recorded attempt: which model ran, whether it succeeded, what it
/// produced, and how long it took (milliseconds). A successful attempt
/// with an absent confidence means the engine returned no usable score —
/// that is distinct from a confidence of zero.
#[derive(Debug, Clone, PartialEq)]
pub struct TranscriptionAttempt {
    pub model_id: String,
    pub success: bool,
    pub confidence: Option<u32>,
    pub text: Option<String>,
    pub error: Option<String>,
    pub processing_time: u64,
}

/// Mathematical image of `TranscriptionAttempt`.
#[verifier::ext_equal]
pub struct TranscriptionAttemptView {
    pub model_id: Seq<char>,
    pub success: bool,
    pub confidence: Option<u32>,
    pub text: Option<Seq<char>>,
    pub error: Option<Seq<char>>,
    pub processing_time: u64,
}

impl View for TranscriptionAttempt {
    type V = TranscriptionAttemptView;

    open spec fn view(&self) -> TranscriptionAttemptView {
        TranscriptionAttemptView {
            model_id: self.model_id@,
            success: self.success,
            confidence: self.confidence,
            text: match self.text {
                Some(t) => Some(t@),
                None => None,
            },
            error: match self.error {
                Some(e) => Some(e@),
                None => None,
            },
            processing_time: self.processing_time,
        }
    }
}

/// The views of a sequence of attempts.
pub open spec fn attempts_view(s: Seq<TranscriptionAttempt>) -> Seq<TranscriptionAttemptView> {
    s.map_values(|a: TranscriptionAttempt| a@)
}

/// The orchestration outcome: the selected result, the complete ordered
/// attempt trail, the selected model, and the whole orchestration's
/// wall-clock time in milliseconds.
#[derive(Debug, Clone, PartialEq)]
pub struct MultiModelResult {
    pub final_result: TranscriptionResult,
    pub attempts: Vec<TranscriptionAttempt>,
    pub selected_model: String,
    pub total_processing_time: u64,
}

/// Mathematical image of `MultiModelResult`.
#[verifier::ext_equal]
pub struct MultiModelResultView {
    pub final_result: TranscriptionResultView,
    pub attempts: Seq<TranscriptionAttemptView>,
    pub selected_model: Seq<char>,
    pub total_processing_time: u64,
}

impl View for MultiModelResult {
    type V = MultiModelResultView;

    open spec fn view(&self) -> MultiModelResultView {
        MultiModelResultView {
            final_result: self.final_result@,
            attempts: attempts_view(self.attempts@),
            selected_model: self.selected_model@,
            total_processing_time: self.total_processing_time,
        }
    }
}

/// Why a whole orchestration failed. Per-attempt failures never abort the
/// loop; these two do. `AllAttemptsFailed` carries the full attempt trail
/// for diagnosis.
#[derive(Debug, Clone, PartialEq)]
pub enum OrchestrationError {
    NoCandidates,
    AllAttemptsFailed { attempts: Vec<TranscriptionAttempt> },
}

/// Mathematical image of `OrchestrationError`.
pub enum OrchestrationErrorView {
    NoCandidates,
    AllAttemptsFailed { attempts: Seq<TranscriptionAttemptView> },
}

impl View for OrchestrationError {
    type V = OrchestrationErrorView;

    open spec fn view(&self) -> OrchestrationErrorView {
        match self {
            OrchestrationError::NoCandidates => OrchestrationErrorView::NoCandidates,
            OrchestrationError::AllAttemptsFailed { attempts } => {
                OrchestrationErrorView::AllAttemptsFailed { attempts: attempts_view(attempts@) }
            },
        }
    }
}

/// One planned candidate: the identifier from the selector, and its
/// configuration when the registry has one.
#[derive(Debug, Clone)]
pub struct PlannedCandidate {
    pub model_id: String,
    pub config: Option<ModelConfig>,
}

/// Mathematical image of `PlannedCandidate`.
#[verifier::ext_equal]
pub struct PlannedCandidateView {
    pub model_id: Seq<char>,
    pub config: Option<ModelConfigView>,
}

impl View for PlannedCandidate {
    type V = PlannedCandidateView;

    open spec fn view(&self) -> PlannedCandidateView {
        PlannedCandidateView {
            model_id: self.model_id@,
            config: match &self.config {
                Some(c) => Some(c@),
                None => None,
            },
        }
    }
}

/// The views of a sequence of planned candidates.
pub open spec fn plan_view(s: Seq<PlannedCandidate>) -> Seq<PlannedCandidateView> {
    s.map_values(|c: PlannedCandidate| c@)
}

/// What one engine invocation reported back: the normalized outcome or
/// error, and the invocation's wall-clock time in milliseconds.
#[derive(Debug)]
pub struct EngineReport {
    pub outcome: Result<TranscriptionOutcome, EngineError>,
    pub processing_time: u64,
}

/// Mathematical image of `EngineReport`.
#[verifier::ext_equal]
pub struct EngineReportView {
    pub outcome: Result<TranscriptionOutcomeView, Seq<char>>,
    pub processing_time: u64,
}

impl View for EngineReport {
    type V = EngineReportView;

    open spec fn view(&self) -> EngineReportView {
        EngineReportView {
            outcome: match &self.outcome {
                Ok(o) => Ok(o@),
                Err(e) => Err(e@),
            },
            processing_time: self.processing_time,
        }
    }
}

/// The views of a sequence of engine reports.
pub open spec fn reports_view(s: Seq<EngineReport>) -> Seq<EngineReportView> {
    s.map_values(|r: EngineReport| r@)
}

/// The running best result and the model that produced it.
#[derive(Debug, Clone)]
pub struct BestResult {
    pub outcome: TranscriptionOutcome,
    pub model_id: String,
}

/// Mathematical image of `BestResult`.
#[verifier::ext_equal]
pub struct BestResultView {
    pub outcome: TranscriptionOutcomeView,
    pub model_id: Seq<char>,
}

impl View for BestResult {
    type V = BestResultView;

    open spec fn view(&self) -> BestResultView {
        BestResultView { outcome: self.outcome@, model_id: self.model_id@ }
    }
}

/// The orchestrator's state between attempts, as mathematics: the attempt
/// trail, the running best, whether the loop has stopped, the index of the
/// next candidate, and how many engine reports have been consumed.
#[verifier::ext_equal]
pub struct RunStateView {
    pub attempts: Seq<TranscriptionAttemptView>,
    pub best: Option<BestResultView>,
    pub stopped: bool,
    pub next: int,
    pub used: int,
}

/// The state before the first attempt.
pub open spec fn initial_state() -> RunStateView {
    RunStateView { attempts: Seq::empty(), best: None, stopped: false, next: 0, used: 0 }
}

/// The error message recorded when a candidate has no configuration.
pub open spec fn missing_config_message() -> Seq<char> {
    "model configuration not found"@
}

/// The attempt recorded for a candidate whose configuration is missing.
pub open spec fn missing_config_attempt(model_id: Seq<char>) -> TranscriptionAttemptView {
    TranscriptionAttemptView {
        model_id: model_id,
        success: false,
        confidence: None,
        text: None,
        error: Some(missing_config_message()),
        processing_time: 0,
    }
}

/// The attempt recorded for a failed engine invocation.
pub open spec fn failed_attempt(
    model_id: Seq<char>,
    message: Seq<char>,
    time: u64,
) -> TranscriptionAttemptView {
    TranscriptionAttemptView {
        model_id: model_id,
        success: false,
        confidence: None,
        text: None,
        error: Some(message),
        processing_time: time,
    }
}

/// The attempt recorded for a successful engine invocation. The outcome's
/// absent confidence stays absent — it is not collapsed to zero.
pub open spec fn successful_attempt(
    model_id: Seq<char>,
    outcome: TranscriptionOutcomeView,
    time: u64,
) -> TranscriptionAttemptView {
    TranscriptionAttemptView {
        model_id: model_id,
        success: true,
        confidence: outcome.confidence,
        text: Some(outcome.text),
        error: None,
        processing_time: time,
    }
}

/// The single-attempt-then-commit rule: with confidence fallback disabled,
/// the loop stops as soon as any best result exists, whatever its
/// confidence.
pub open spec fn with_fallback_check(fallback_enabled: bool, st: RunStateView) -> RunStateView {
    if !fallback_enabled && st.best is Some {
        RunStateView { stopped: true, ..st }
    } else {
        st
    }
}

/// Processing a candidate whose configuration is missing: a failed attempt
/// is recorded and the loop moves on.
pub open spec fn apply_missing(
    fallback_enabled: bool,
    cand: PlannedCandidateView,
    st: RunStateView,
) -> RunStateView {
    with_fallback_check(
        fallback_enabled,
        RunStateView {
            attempts: st.attempts.push(missing_config_attempt(cand.model_id)),
            next: st.next + 1,
            ..st
        },
    )
}

/// Whether a successful outcome meets its model's acceptance threshold:
/// only a present confidence can satisfy the threshold.
pub open spec fn meets_threshold(outcome: TranscriptionOutcomeView, cfg: ModelConfigView) -> bool {
    match outcome.confidence {
        Some(c) => c >= cfg.confidence_threshold,
        None => false,
    }
}

/// Whether a successful outcome replaces the running best: always when no
/// best exists yet; otherwise only when its comparison value (absent
/// confidence counts as zero, for comparison only) is strictly greater.
pub open spec fn improves_best(
    outcome: TranscriptionOutcomeView,
    best: Option<BestResultView>,
) -> bool {
    match best {
        None => true,
        Some(b) => comparison_value(outcome.confidence) > comparison_value(b.outcome.confidence),
    }
}

/// Processing one engine report for the candidate `cand` with
/// configuration `cfg`: the attempt is recorded; a success that meets the
/// threshold is adopted and stops the loop; otherwise a success may become
/// the running best; failures leave the best untouched; and the
/// fallback-disabled check runs after the attempt either way.
pub open spec fn apply_report(
    fallback_enabled: bool,
    cand: PlannedCandidateView,
    cfg: ModelConfigView,
    st: RunStateView,
    rep: EngineReportView,
) -> RunStateView {
    match rep.outcome {
        Err(msg) => with_fallback_check(
            fallback_enabled,
            RunStateView {
                attempts: st.attempts.push(failed_attempt(cand.model_id, msg, rep.processing_time)),
                next: st.next + 1,
                used: st.used + 1,
                ..st
            },
        ),
        Ok(out) => {
            let attempts = st.attempts.push(
                successful_attempt(cand.model_id, out, rep.processing_time),
            );
            if meets_threshold(out, cfg) {
                RunStateView {
                    attempts: attempts,
                    best: Some(BestResultView { outcome: out, model_id: cand.model_id }),
                    stopped: true,
                    next: st.next + 1,
                    used: st.used + 1,
                }
            } else if improves_best(out, st.best) {
                with_fallback_check(
                    fallback_enabled,
                    RunStateView {
                        attempts: attempts,
                        best: Some(BestResultView { outcome: out, model_id: cand.model_id }),
                        stopped: false,
                        next: st.next + 1,
                        used: st.used + 1,
                    },
                )
            } else {
                with_fallback_check(
                    fallback_enabled,
                    RunStateView {
                        attempts: attempts,
                        next: st.next + 1,
                        used: st.used + 1,
                        ..st
                    },
                )
            }
        },
    }
}

/// One step of the loop on candidate `st.next`, drawing the next unused
/// engine report when the candidate has a configuration. A run that has no
/// report left to draw stops (the drivers in this crate always supply
/// enough reports, so their runs never take that branch).
pub open spec fn step(
    fallback_enabled: bool,
    plan: Seq<PlannedCandidateView>,
    reports: Seq<EngineReportView>,
    st: RunStateView,
) -> RunStateView {
    let cand = plan[st.next];
    match cand.config {
        None => apply_missing(fallback_enabled, cand, st),
        Some(cfg) => if st.used < reports.len() {
            apply_report(fallback_enabled, cand, cfg, st, reports[st.used])
        } else {
            RunStateView { stopped: true, next: st.next + 1, ..st }
        },
    }
}

/// The whole loop from state `st`: steps until the loop has stopped or the
/// candidates are exhausted.
pub open spec fn run_from(
    fallback_enabled: bool,
    plan: Seq<PlannedCandidateView>,
    reports: Seq<EngineReportView>,
    st: RunStateView,
) -> RunStateView
    decreases plan.len() - st.next,
{
    if st.stopped || st.next < 0 || st.next >= plan.len() {
        st
    } else {
        run_from(fallback_enabled, plan, reports, step(fallback_enabled, plan, reports, st))
    }
}

/// The result shape built from the adopted outcome: a successful
/// transcription carrying the outcome's text, language, segments and
/// confidence.
pub open spec fn result_of_outcome(out: TranscriptionOutcomeView) -> TranscriptionResultView {
    TranscriptionResultView {
        success: true,
        text: Some(out.text),
        error: None,
        processing_time: None,
        confidence: out.confidence,
        language: out.language,
        segments: Some(out.segments),
        file_path: None,
    }
}

/// Closing the loop: with no best result the orchestration fails with the
/// full attempt trail; otherwise the best result, the trail, the selected
/// model and the total time are packaged.
pub open spec fn spec_finish(st: RunStateView, total_time: u64) -> Result<
    MultiModelResultView,
    OrchestrationErrorView,
> {
    match st.best {
        None => Err(OrchestrationErrorView::AllAttemptsFailed { attempts: st.attempts }),
        Some(b) => Ok(
            MultiModelResultView {
                final_result: result_of_outcome(b.outcome),
                attempts: st.attempts,
                selected_model: b.model_id,
                total_processing_time: total_time,
            },
        ),
    }
}

/// The candidate identifiers resolved against the registry.
pub open spec fn plan_of(reg: ModelRegistryView, ids: Seq<Seq<char>>) -> Seq<PlannedCandidateView> {
    ids.map_values(
        |id: Seq<char>|
            PlannedCandidateView { model_id: id, config: find_model(reg.models, id) },
    )
}

/// The plan an orchestration runs on: the selected candidates, bounded to
/// the first `max` entries, each resolved against the registry.
pub open spec fn spec_plan(reg: ModelRegistryView, lang: Option<Seq<char>>, max: int) -> Seq<
    PlannedCandidateView,
> {
    let ids = spec_candidates(reg, lang);
    let bounded = if ids.len() > max {
        ids.take(max)
    } else {
        ids
    };
    plan_of(reg, bounded)
}

impl EngineReport {
    /// An exact copy: the result's view equals this value's view.
    pub fn duplicate(&self) -> (r: EngineReport)
        ensures
            r@ == self@,
    {
        let outcome: Result<TranscriptionOutcome, EngineError> = match &self.outcome {
            Ok(o) => Ok(o.duplicate()),
            Err(e) => Err(EngineError { message: e.message.clone() }),
        };
        EngineReport { outcome, processing_time: self.processing_time }
    }
}

/// The fallback orchestrator's loop state: the bounded candidate plan and
/// everything accumulated so far. The driver alternates between asking
/// which model to invoke and handing back what the engine reported; the
/// orchestrator makes every decision.
#[derive(Debug)]
pub struct FallbackOrchestrator {
    fallback_enabled: bool,
    plan: Vec<PlannedCandidate>,
    attempts: Vec<TranscriptionAttempt>,
    best: Option<BestResult>,
    stopped: bool,
    next: usize,
    used: usize,
}

/// Mathematical image of `FallbackOrchestrator`.
#[verifier::ext_equal]
pub struct FallbackOrchestratorView {
    pub fallback_enabled: bool,
    pub plan: Seq<PlannedCandidateView>,
    pub state: RunStateView,
}

impl View for FallbackOrchestrator {
    type V = FallbackOrchestratorView;

    closed spec fn view(&self) -> FallbackOrchestratorView {
        FallbackOrchestratorView {
            fallback_enabled: self.fallback_enabled,
            plan: plan_view(self.plan@),
            state: RunStateView {
                attempts: attempts_view(self.attempts@),
                best: match &self.best {
                    Some(b) => Some(b@),
                    None => None,
                },
                stopped: self.stopped,
                next: self.next as int,
                used: self.used as int,
            },
        }
    }
}

impl FallbackOrchestratorView {
    /// Structural soundness of the loop state: the candidate cursor stays
    /// within the plan and the report cursor never runs ahead of it.
    pub open spec fn wf(self) -> bool {
        &&& 0 <= self.state.next <= self.plan.len()
        &&& 0 <= self.state.used <= self.state.next
    }

    /// Whether the loop is over: stopped early, or out of candidates.
    pub open spec fn finished(self) -> bool {
        self.state.stopped || self.state.next >= self.plan.len()
    }
}

impl FallbackOrchestrator {
    /// Plans an orchestration: selects candidates for the language hint,
    /// bounds them to `max_attempts` (default 3), and resolves each
    /// against the registry. An empty selection is a configuration error,
    /// reported as `NoCandidates` before any attempt.
    pub fn new(
        registry: &ModelRegistry,
        language: Option<&str>,
        max_attempts: Option<usize>,
    ) -> (r: Result<FallbackOrchestrator, OrchestrationError>)
        ensures
            ({
                let max = match max_attempts {
                    Some(m) => m as int,
                    None => DEFAULT_MAX_ATTEMPTS as int,
                };
                let cands = spec_candidates(registry@, opt_str_view(language));
                match r {
                    Err(e) => cands.len() == 0 && e@ is NoCandidates,
                    Ok(o) => {
                        &&& cands.len() > 0
                        &&& o@.fallback_enabled == registry@.confidence_fallback_enabled
                        &&& o@.plan == spec_plan(registry@, opt_str_view(language), max)
                        &&& o@.state == initial_state()
                        &&& o@.wf()
                    },
                }
            }),
    {
        let mut ids = registry.get_candidate_models(language);
        if ids.len() == 0 {
            proof {
                assert(spec_candidates(registry@, opt_str_view(language)).len() == 0);
            }
            return Err(OrchestrationError::NoCandidates);
        }
        let max = match max_attempts {
            Some(m) => m,
            None => DEFAULT_MAX_ATTEMPTS,
        };
        let ghost full_ids = strings_view(ids@);
        ids.truncate(max);
        proof {
            if max < full_ids.len() {
                assert(strings_view(ids@) =~= full_ids.take(max as int));
            }
        }
        let ghost bounded = strings_view(ids@);
        let mut plan: Vec<PlannedCandidate> = Vec::new();
        let mut i: usize = 0;
        while i < ids.len()
            invariant
                0 <= i <= ids@.len(),
                bounded == strings_view(ids@),
                plan_view(plan@).len() == i,
                forall|k: int|
                    0 <= k < i ==> plan_view(plan@)[k] == (PlannedCandidateView {
                        model_id: bounded[k],
                        config: find_model(registry@.models, bounded[k]),
                    }),
            decreases ids@.len() - i,
        {
            let ghost prev = plan_view(plan@);
            let id = ids[i].clone();
            let config: Option<ModelConfig> = match registry.get_model(id.as_str()) {
                Some(c) => Some(c.duplicate()),
                None => None,
            };
            plan.push(PlannedCandidate { model_id: id, config });
            proof {
                assert forall|k: int|
                    0 <= k < i + 1 implies plan_view(plan@)[k] == (PlannedCandidateView {
                    model_id: bounded[k],
                    config: find_model(registry@.models, bounded[k]),
                }) by {
                    if k < i {
                        assert(plan_view(plan@)[k] == prev[k]);
                    } else {
                        assert(plan_view(plan@)[k] =~= PlannedCandidateView {
                            model_id: bounded[k],
                            config: find_model(registry@.models, bounded[k]),
                        });
                    }
                }
            }
            i = i + 1;
        }
        let r = FallbackOrchestrator {
            fallback_enabled: registry.confidence_fallback_enabled,
            plan,
            attempts: Vec::new(),
            best: None,
            stopped: false,
            next: 0,
            used: 0,
        };
        proof {
            let max_i = match max_attempts {
                Some(m) => m as int,
                None => DEFAULT_MAX_ATTEMPTS as int,
            };
            assert(r@.plan =~= spec_plan(registry@, opt_str_view(language), max_i));
            assert(r@.state =~= initial_state());
        }
        Ok(r)
    }

    /// Whether the loop is over: stopped early, or out of candidates.
    pub fn is_finished(&self) -> (r: bool)
        ensures
            r == self@.finished(),
    {
        self.stopped || self.next >= self.plan.len()
    }

    /// How many engine reports the orchestration has consumed so far.
    pub fn reports_used(&self) -> (r: usize)
        ensures
            r as int == self@.state.used,
    {
        self.used
    }

    /// The attempts recorded so far, in order.
    pub fn attempts_so_far(&self) -> (r: &Vec<TranscriptionAttempt>)
        ensures
            attempts_view(r@) == self@.state.attempts,
    {
        &self.attempts
    }

    /// The configuration of the candidate the loop is at: `None` means the
    /// identifier is not registered, and the caller must call
    /// `step_missing` instead of invoking an engine.
    pub fn current_config(&self) -> (r: Option<&ModelConfig>)
        requires
            self@.wf(),
            !self@.finished(),
        ensures
            match r {
                Some(c) => self@.plan[self@.state.next].config == Some(c@),
                None => self@.plan[self@.state.next].config is None,
            },
    {
        match &self.plan[self.next].config {
            Some(c) => Some(c),
            None => None,
        }
    }

    /// Records the failed attempt for a candidate with no configuration
    /// and moves to the next candidate: a missing configuration never
    /// aborts the loop.
    pub fn step_missing(&mut self)
        requires
            old(self)@.wf(),
            !old(self)@.finished(),
            old(self)@.plan[old(self)@.state.next].config is None,
        ensures
            final(self)@.fallback_enabled == old(self)@.fallback_enabled,
            final(self)@.plan == old(self)@.plan,
            final(self)@.state == apply_missing(
                old(self)@.fallback_enabled,
                old(self)@.plan[old(self)@.state.next],
                old(self)@.state,
            ),
            final(self)@.wf(),
    {
        let plen = self.plan.len();
        proof {
            assert(self.next < plen);
        }
        let model_id = self.plan[self.next].model_id.clone();
        self.attempts.push(
            TranscriptionAttempt {
                model_id,
                success: false,
                confidence: None,
                text: None,
                error: Some("model configuration not found".to_owned()),
                processing_time: 0,
            },
        );
        self.next = self.next + 1;
        if !self.fallback_enabled && self.best.is_some() {
            self.stopped = true;
        }
        proof {
            assert(final(self)@.state.attempts =~= old(self)@.state.attempts.push(
                missing_config_attempt(old(self)@.plan[old(self)@.state.next].model_id),
            ));
            assert(final(self)@.state =~= apply_missing(
                old(self)@.fallback_enabled,
                old(self)@.plan[old(self)@.state.next],
                old(self)@.state,
            ));
        }
    }

    /// Records what the engine reported for the candidate the loop is at,
    /// applies the selection policy — threshold early exit, running-best
    /// salvage with strict improvement, fallback-disabled short circuit —
    /// and moves to the next candidate.
    pub fn step_report(
        &mut self,
        outcome: Result<TranscriptionOutcome, EngineError>,
        processing_time: u64,
    )
        requires
            old(self)@.wf(),
            !old(self)@.finished(),
            old(self)@.plan[old(self)@.state.next].config is Some,
        ensures
            final(self)@.fallback_enabled == old(self)@.fallback_enabled,
            final(self)@.plan == old(self)@.plan,
            final(self)@.state == apply_report(
                old(self)@.fallback_enabled,
                old(self)@.plan[old(self)@.state.next],
                old(self)@.plan[old(self)@.state.next].config->Some_0,
                old(self)@.state,
                EngineReportView {
                    outcome: match outcome {
                        Ok(o) => Ok(o@),
                        Err(e) => Err(e@),
                    },
                    processing_time: processing_time,
                },
            ),
            final(self)@.wf(),
    {
        let plen = self.plan.len();
        proof {
            assert(self.next < plen);
            assert(self.used <= self.next);
        }
        let model_id = self.plan[self.next].model_id.clone();
        let threshold: u32 = match &self.plan[self.next].config {
            Some(c) => c.confidence_threshold,
            None => 0,
        };
        match outcome {
            Err(e) => {
                self.attempts.push(
                    TranscriptionAttempt {
                        model_id,
                        success: false,
                        confidence: None,
                        text: None,
                        error: Some(e.message),
                        processing_time,
                    },
                );
                self.next = self.next + 1;
                self.used = self.used + 1;
                if !self.fallback_enabled && self.best.is_some() {
                    self.stopped = true;
                }
                proof {
                    assert(final(self)@.state.attempts =~= old(self)@.state.attempts.push(
                        failed_attempt(
                            old(self)@.plan[old(self)@.state.next].model_id,
                            e@,
                            processing_time,
                        ),
                    ));
                    assert(final(self)@.state =~= apply_report(
                        old(self)@.fallback_enabled,
                        old(self)@.plan[old(self)@.state.next],
                        old(self)@.plan[old(self)@.state.next].config->Some_0,
                        old(self)@.state,
                        EngineReportView {
                            outcome: Err(e@),
                            processing_time: processing_time,
                        },
                    ));
                }
            },
            Ok(out) => {
                self.attempts.push(
                    TranscriptionAttempt {
                        model_id: model_id.clone(),
                        success: true,
                        confidence: out.confidence,
                        text: Some(out.text.clone()),
                        error: None,
                        processing_time,
                    },
                );
                let meets: bool = match out.confidence {
                    Some(c) => c >= threshold,
                    None => false,
                };
                if meets {
                    self.best = Some(BestResult { outcome: out, model_id });
                    self.stopped = true;
                    self.next = self.next + 1;
                    self.used = self.used + 1;
                } else {
                    let improves: bool = match &self.best {
                        None => true,
                        Some(b) => crate::confidence::compare_value(out.confidence)
                            > crate::confidence::compare_value(b.outcome.confidence),
                    };
                    if improves {
                        self.best = Some(BestResult { outcome: out, model_id });
                    }
                    self.next = self.next + 1;
                    self.used = self.used + 1;
                    if !self.fallback_enabled && self.best.is_some() {
                        self.stopped = true;
                    }
                }
                proof {
                    let ghost cand = old(self)@.plan[old(self)@.state.next];
                    let ghost rep = EngineReportView {
                        outcome: Ok(outcome->Ok_0@),
                        processing_time: processing_time,
                    };
                    assert(final(self)@.state.attempts =~= old(self)@.state.attempts.push(
                        successful_attempt(cand.model_id, outcome->Ok_0@, processing_time),
                    ));
                    assert(final(self)@.state =~= apply_report(
                        old(self)@.fallback_enabled,
                        cand,
                        cand.config->Some_0,
                        old(self)@.state,
                        rep,
                    ));
                }
            },
        }
    }

    /// Closes the loop: with no usable result the orchestration fails with
    /// the complete attempt trail; otherwise the best result is packaged
    /// with the trail, the selected model, and the total wall-clock time.
    pub fn finish(self, total_processing_time: u64) -> (r: Result<
        MultiModelResult,
        OrchestrationError,
    >)
        requires
            self@.finished(),
        ensures
            ({
                let sf = spec_finish(self@.state, total_processing_time);
                match r {
                    Ok(m) => sf matches Ok(mv) && m@ == mv,
                    Err(e) => sf matches Err(ev) && e@ == ev,
                }
            }),
    {
        match self.best {
            None => Err(OrchestrationError::AllAttemptsFailed { attempts: self.attempts }),
            Some(b) => {
                let final_result = TranscriptionResult {
                    success: true,
                    text: Some(b.outcome.text),
                    error: None,
                    processing_time: None,
                    confidence: b.outcome.confidence,
                    language: b.outcome.language,
                    segments: Some(b.outcome.segments),
                    file_path: None,
                };
                let r = MultiModelResult {
                    final_result,
                    attempts: self.attempts,
                    selected_model: b.model_id,
                    total_processing_time,
                };
                proof {
                    assert(r@ =~= spec_finish(self@.state, total_processing_time)->Ok_0);
                }
                Ok(r)
            },
        }
    }

    /// Drives the whole loop against a prepared list of engine reports,
    /// consuming one report per engine-backed attempt, in order. This is
    /// how a caller that already holds the engine's reports (a test, a
    /// replay) runs the orchestration; a live driver alternates
    /// `current_config` and the step functions instead.
    pub fn run_with_reports(&mut self, reports: &Vec<EngineReport>)
        requires
            old(self)@.wf(),
            old(self)@.state.used + (old(self)@.plan.len() - old(self)@.state.next)
                <= reports_view(reports@).len(),
        ensures
            final(self)@.fallback_enabled == old(self)@.fallback_enabled,
            final(self)@.plan == old(self)@.plan,
            final(self)@.state == run_from(
                old(self)@.fallback_enabled,
                old(self)@.plan,
                reports_view(reports@),
                old(self)@.state,
            ),
            final(self)@.wf(),
            final(self)@.finished(),
    {
        let ghost fb = old(self)@.fallback_enabled;
        let ghost planv = old(self)@.plan;
        let ghost repv = reports_view(reports@);
        while !self.is_finished()
            invariant
                self@.wf(),
                self@.fallback_enabled == fb,
                self@.plan == planv,
                repv == reports_view(reports@),
                self@.state.used + (planv.len() - self@.state.next) <= repv.len(),
                run_from(fb, planv, repv, self@.state) == run_from(
                    fb,
                    planv,
                    repv,
                    old(self)@.state,
                ),
            decreases planv.len() - self@.state.next,
        {
            let ghost st = self@.state;
            let has_config: bool = match self.current_config() {
                Some(_) => true,
                None => false,
            };
            if has_config {
                let u = self.used;
                proof {
                    assert(st.used < repv.len());
                }
                let rep = reports[u].duplicate();
                self.step_report(rep.outcome, rep.processing_time);
                proof {
                    assert(self@.state == step(fb, planv, repv, st));
                }
            } else {
                self.step_missing();
                proof {
                    assert(self@.state == step(fb, planv, repv, st));
                }
            }
        }
    }
}

/// Every step moves to the next candidate and records at most one
/// attempt, so a run never records more attempts than it has candidates
/// left.
proof fn lemma_attempts_bounded_from(
    fallback_enabled: bool,
    plan: Seq<PlannedCandidateView>,
    reports: Seq<EngineReportView>,
    st: RunStateView,
)
    ensures
        ({
            let fin = run_from(fallback_enabled, plan, reports, st);
            fin.attempts.len() <= st.attempts.len() + if st.next <= plan.len() {
                plan.len() - st.next
            } else {
                0int
            }
        }),
    decreases plan.len() - st.next,
{
    if !(st.stopped || st.next < 0 || st.next >= plan.len()) {
        lemma_attempts_bounded_from(
            fallback_enabled,
            plan,
            reports,
            step(fallback_enabled, plan, reports, st),
        );
    }
}

/// **Attempt bound law.** An orchestration over the plan selected for
/// `max_attempts = max` records at most `max` attempts, whatever the
/// engine reports: the plan itself is bounded, and the loop records at
/// most one attempt per planned candidate.
pub proof fn lemma_max_attempts_bound(
    fallback_enabled: bool,
    reg: ModelRegistryView,
    lang: Option<Seq<char>>,
    max: int,
    reports: Seq<EngineReportView>,
)
    requires
        max >= 0,
    ensures
        run_from(
            fallback_enabled,
            spec_plan(reg, lang, max),
            reports,
            initial_state(),
        ).attempts.len() <= max,
        spec_plan(reg, lang, max).len() <= max,
{
    let plan = spec_plan(reg, lang, max);
    lemma_attempts_bounded_from(fallback_enabled, plan, reports, initial_state());
}

/// When every engine report is a failure, no step sets a best result or
/// stops the loop, so the run exhausts its candidates, records one failed
/// attempt per candidate, and ends with nothing to select.
proof fn lemma_all_failures_from(
    fallback_enabled: bool,
    plan: Seq<PlannedCandidateView>,
    reports: Seq<EngineReportView>,
    st: RunStateView,
)
    requires
        0 <= st.next <= plan.len(),
        0 <= st.used,
        st.used + (plan.len() - st.next) <= reports.len(),
        !st.stopped,
        st.best is None,
        forall|k: int| 0 <= k < reports.len() ==> (#[trigger] reports[k].outcome) is Err,
        forall|k: int| 0 <= k < st.attempts.len() ==> !(#[trigger] st.attempts[k]).success,
    ensures
        ({
            let fin = run_from(fallback_enabled, plan, reports, st);
            &&& fin.best is None
            &&& fin.attempts.len() == st.attempts.len() + (plan.len() - st.next)
            &&& forall|k: int|
                0 <= k < fin.attempts.len() ==> !(#[trigger] fin.attempts[k]).success
        }),
    decreases plan.len() - st.next,
{
    if st.next < plan.len() {
        let st2 = step(fallback_enabled, plan, reports, st);
        assert(st2.best is None && !st2.stopped && st2.attempts.len() == st.attempts.len() + 1)
            by {
            match plan[st.next].config {
                Some(_) => {
                    assert(reports[st.used].outcome is Err);
                },
                None => {},
            }
        }
        assert(forall|k: int|
            0 <= k < st2.attempts.len() ==> !(#[trigger] st2.attempts[k]).success);
        lemma_all_failures_from(fallback_enabled, plan, reports, st2);
    }
}

/// **Total failure law.** When every engine report is a failure, the
/// orchestration tries every planned candidate, records exactly one
/// unsuccessful attempt per candidate, and ends with no result to select —
/// which `spec_finish` turns into `AllAttemptsFailed` carrying that trail.
pub proof fn lemma_all_attempts_failed(
    fallback_enabled: bool,
    plan: Seq<PlannedCandidateView>,
    reports: Seq<EngineReportView>,
    total_time: u64,
)
    requires
        plan.len() <= reports.len(),
        forall|k: int| 0 <= k < reports.len() ==> (#[trigger] reports[k].outcome) is Err,
    ensures
        ({
            let fin = run_from(fallback_enabled, plan, reports, initial_state());
            &&& fin.best is None
            &&& fin.attempts.len() == plan.len()
            &&& forall|k: int|
                0 <= k < fin.attempts.len() ==> !(#[trigger] fin.attempts[k]).success
            &&& spec_finish(fin, total_time) == Err::<MultiModelResultView, _>(
                OrchestrationErrorView::AllAttemptsFailed { attempts: fin.attempts },
            )
        }),
{
    lemma_all_failures_from(fallback_enabled, plan, reports, initial_state());
}

/// **Early exit law.** When the first candidate's result meets that
/// model's own confidence threshold, the loop stops at once: exactly one
/// attempt is recorded, no further candidate is consulted, and the first
/// candidate's result is the one selected.
pub proof fn lemma_early_exit(
    fallback_enabled: bool,
    plan: Seq<PlannedCandidateView>,
    reports: Seq<EngineReportView>,
    total_time: u64,
)
    requires
        plan.len() >= 1,
        plan[0].config is Some,
        reports.len() >= 1,
        reports[0].outcome is Ok,
        meets_threshold(reports[0].outcome->Ok_0, plan[0].config->Some_0),
    ensures
        ({
            let fin = run_from(fallback_enabled, plan, reports, initial_state());
            let out = reports[0].outcome->Ok_0;
            &&& fin.attempts.len() == 1
            &&& fin.attempts[0] == successful_attempt(
                plan[0].model_id,
                out,
                reports[0].processing_time,
            )
            &&& fin.used == 1
            &&& fin.best == Some(
                BestResultView { outcome: out, model_id: plan[0].model_id },
            )
            &&& spec_finish(fin, total_time) matches Ok(m) && m.selected_model
                == plan[0].model_id && m.final_result.confidence == out.confidence
        }),
{
    let st0 = initial_state();
    let st1 = step(fallback_enabled, plan, reports, st0);
    assert(st1.stopped);
    assert(run_from(fallback_enabled, plan, reports, st1) == st1);
    assert(st1.attempts =~= Seq::empty().push(
        successful_attempt(plan[0].model_id, reports[0].outcome->Ok_0, reports[0].processing_time),
    ));
}

/// **Salvage law.** Two candidates, neither result meeting its model's
/// threshold, the second no more confident than the first, confidence
/// fallback enabled: both attempts are recorded and the first result is
/// kept — on ties the earlier, higher-priority candidate wins.
pub proof fn lemma_salvage_keeps_first(
    plan: Seq<PlannedCandidateView>,
    reports: Seq<EngineReportView>,
    total_time: u64,
)
    requires
        plan.len() == 2,
        plan[0].config is Some,
        plan[1].config is Some,
        reports.len() >= 2,
        reports[0].outcome is Ok,
        reports[1].outcome is Ok,
        !meets_threshold(reports[0].outcome->Ok_0, plan[0].config->Some_0),
        !meets_threshold(reports[1].outcome->Ok_0, plan[1].config->Some_0),
        comparison_value((reports[1].outcome->Ok_0).confidence) <= comparison_value(
            (reports[0].outcome->Ok_0).confidence,
        ),
    ensures
        ({
            let fin = run_from(true, plan, reports, initial_state());
            let out0 = reports[0].outcome->Ok_0;
            &&& fin.attempts.len() == 2
            &&& fin.best == Some(
                BestResultView { outcome: out0, model_id: plan[0].model_id },
            )
            &&& spec_finish(fin, total_time) matches Ok(m) && m.selected_model
                == plan[0].model_id && m.final_result.confidence == out0.confidence
        }),
{
    let st0 = initial_state();
    let st1 = step(true, plan, reports, st0);
    assert(!st1.stopped && st1.next == 1 && st1.used == 1);
    assert(st1.best == Some(
        BestResultView { outcome: reports[0].outcome->Ok_0, model_id: plan[0].model_id },
    ));
    let st2 = step(true, plan, reports, st1);
    assert(st2.next == 2);
    assert(st2.best == st1.best);
    assert(st2.attempts.len() == 2);
    assert(run_from(true, plan, reports, st0) == run_from(true, plan, reports, st1));
    assert(run_from(true, plan, reports, st1) == run_from(true, plan, reports, st2));
    assert(run_from(true, plan, reports, st2) == st2);
}

/// **Strict improvement law.** Two candidates, neither result meeting its
/// model's threshold, the second strictly more confident than the first:
/// the second result replaces the first as the selection.
pub proof fn lemma_strict_improvement_replaces(
    plan: Seq<PlannedCandidateView>,
    reports: Seq<EngineReportView>,
    total_time: u64,
)
    requires
        plan.len() == 2,
        plan[0].config is Some,
        plan[1].config is Some,
        reports.len() >= 2,
        reports[0].outcome is Ok,
        reports[1].outcome is Ok,
        !meets_threshold(reports[0].outcome->Ok_0, plan[0].config->Some_0),
        !meets_threshold(reports[1].outcome->Ok_0, plan[1].config->Some_0),
        comparison_value((reports[1].outcome->Ok_0).confidence) > comparison_value(
            (reports[0].outcome->Ok_0).confidence,
        ),
    ensures
        ({
            let fin = run_from(true, plan, reports, initial_state());
            let out1 = reports[1].outcome->Ok_0;
            &&& fin.attempts.len() == 2
            &&& fin.best == Some(
                BestResultView { outcome: out1, model_id: plan[1].model_id },
            )
            &&& spec_finish(fin, total_time) matches Ok(m) && m.selected_model
                == plan[1].model_id && m.final_result.confidence == out1.confidence
        }),
{
    let st0 = initial_state();
    let st1 = step(true, plan, reports, st0);
    assert(!st1.stopped && st1.next == 1 && st1.used == 1);
    assert(st1.best == Some(
        BestResultView { outcome: reports[0].outcome->Ok_0, model_id: plan[0].model_id },
    ));
    let st2 = step(true, plan, reports, st1);
    assert(st2.next == 2);
    assert(st2.best == Some(
        BestResultView { outcome: reports[1].outcome->Ok_0, model_id: plan[1].model_id },
    ));
    assert(st2.attempts.len() == 2);
    assert(run_from(true, plan, reports, st0) == run_from(true, plan, reports, st1));
    assert(run_from(true, plan, reports, st1) == run_from(true, plan, reports, st2));
    assert(run_from(true, plan, reports, st2) == st2);
}

/// **Fallback-disabled law.** With confidence fallback disabled, the loop
/// commits to the first successful result whatever its confidence: one
/// attempt is recorded and the first candidate is selected, even though
/// its result missed the model's own threshold.
pub proof fn lemma_fallback_disabled_short_circuit(
    plan: Seq<PlannedCandidateView>,
    reports: Seq<EngineReportView>,
    total_time: u64,
)
    requires
        plan.len() >= 1,
        plan[0].config is Some,
        reports.len() >= 1,
        reports[0].outcome is Ok,
    ensures
        ({
            let fin = run_from(false, plan, reports, initial_state());
            let out = reports[0].outcome->Ok_0;
            &&& fin.attempts.len() == 1
            &&& fin.stopped
            &&& fin.best == Some(
                BestResultView { outcome: out, model_id: plan[0].model_id },
            )
            &&& spec_finish(fin, total_time) matches Ok(m) && m.selected_model
                == plan[0].model_id
        }),
{
    let st0 = initial_state();
    let st1 = step(false, plan, reports, st0);
    assert(st1.stopped);
    assert(st1.best == Some(
        BestResultView { outcome: reports[0].outcome->Ok_0, model_id: plan[0].model_id },
    ));
    assert(st1.attempts.len() == 1);
    assert(run_from(false, plan, reports, st1) == st1);
}

} // verus!
