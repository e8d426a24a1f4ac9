//! The model manager: a registry plus the configuration it runs under.
//!
//! The manager is the entry point callers hold: it answers catalog
//! queries, computes candidate orders, and runs whole orchestrations over
//! prepared engine reports. A live driver instead builds a
//! `FallbackOrchestrator` and alternates invocation with the step calls.

use vstd::prelude::*;

use crate::config::Config;
use crate::models::{find_model, ModelConfig, ModelRegistry};
use crate::orchestrator::{
    initial_state, reports_view, run_from, spec_finish, spec_plan, EngineReport,
    FallbackOrchestrator, MultiModelResult, OrchestrationError,
};
use crate::selector::{opt_str_view, spec_candidates};

verus! {

/// A registry and the configuration it serves.
#[derive(Debug, Clone)]
pub struct ModelManager {
    pub registry: ModelRegistry,
    pub config: Config,
}

impl ModelManager {
    /// A manager over the default registry.
    pub fn new(config: Config) -> (r: ModelManager)
        ensures
            r.registry@ == crate::models::spec_default_registry(),
            r.config == config,
    {
        let registry = ModelRegistry::default();
        ModelManager { registry, config }
    }

    /// A manager over a caller-supplied registry.
    pub fn with_registry(config: Config, registry: ModelRegistry) -> (r: ModelManager)
        ensures
            r.registry == registry,
            r.config == config,
    {
        ModelManager { registry, config }
    }

    /// Looks up a model configuration by identifier.
    pub fn get_model_config(&self, model_id: &str) -> (r: Option<&ModelConfig>)
        ensures
            match r {
                Some(c) => find_model(self.registry@.models, model_id@) == Some(c@),
                None => find_model(self.registry@.models, model_id@) is None,
            },
    {
        self.registry.get_model(model_id)
    }

    /// All registered configurations, in registration order.
    pub fn list_models(&self) -> (r: Vec<&ModelConfig>)
        ensures
            r@.len() == self.registry@.models.len(),
            forall|k: int| 0 <= k < r@.len() ==> r@[k]@ == self.registry@.models[k],
    {
        self.registry.list_models()
    }

    /// The configurations curated for `language`, in their stored order;
    /// empty (not an error) for an unknown language.
    pub fn list_models_for_language(&self, language: &str) -> (r: Vec<&ModelConfig>)
        ensures
            r@.len() == self.registry@.models_for_language(language@).len(),
            forall|k: int|
                0 <= k < r@.len() ==> r@[k]@ == self.registry@.models_for_language(language@)[k],
            self.registry@.mapping_for(language@) is None ==> r@.len() == 0,
    {
        self.registry.list_models_for_language(language)
    }

    /// The ordered, de-duplicated candidate identifiers for a language
    /// hint.
    pub fn get_candidate_models(&self, language: Option<&str>) -> (r: Vec<String>)
        ensures
            crate::models::strings_view(r@) == spec_candidates(
                self.registry@,
                opt_str_view(language),
            ),
    {
        self.registry.get_candidate_models(language)
    }

    /// Runs a whole orchestration over prepared engine reports: selects
    /// candidates for the language hint, bounds them to `max_attempts`
    /// (default 3), tries them in order consuming one report per
    /// engine-backed attempt, and packages the selection with the full
    /// attempt trail and the given total wall-clock time.
    pub fn run_fallback(
        &self,
        language: Option<&str>,
        max_attempts: Option<usize>,
        reports: &Vec<EngineReport>,
        total_processing_time: u64,
    ) -> (r: Result<MultiModelResult, OrchestrationError>)
        requires
            ({
                let max = match max_attempts {
                    Some(m) => m as int,
                    None => crate::orchestrator::DEFAULT_MAX_ATTEMPTS as int,
                };
                spec_plan(self.registry@, opt_str_view(language), max).len() <= reports_view(
                    reports@,
                ).len()
            }),
        ensures
            ({
                let max = match max_attempts {
                    Some(m) => m as int,
                    None => crate::orchestrator::DEFAULT_MAX_ATTEMPTS as int,
                };
                let cands = spec_candidates(self.registry@, opt_str_view(language));
                let fin = run_from(
                    self.registry@.confidence_fallback_enabled,
                    spec_plan(self.registry@, opt_str_view(language), max),
                    reports_view(reports@),
                    initial_state(),
                );
                if cands.len() == 0 {
                    r matches Err(e) && e@ is NoCandidates
                } else {
                    match r {
                        Ok(m) => spec_finish(fin, total_processing_time) matches Ok(mv) && m@
                            == mv,
                        Err(e) => spec_finish(fin, total_processing_time) matches Err(ev) && e@
                            == ev,
                    }
                }
            }),
    {
        let mut orchestrator = match FallbackOrchestrator::new(
            &self.registry,
            language,
            max_attempts,
        ) {
            Ok(o) => o,
            Err(e) => {
                return Err(e);
            },
        };
        orchestrator.run_with_reports(reports);
        orchestrator.finish(total_processing_time)
    }
}

} // verus!
