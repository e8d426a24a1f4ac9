//! The registry's file document shape and its validation.
//!
//! A registry is persisted as a structured document: a `registry` section
//! with the default model and the policy switches, a `models` list, and an
//! optional `language_mappings` section. This module turns a registry into
//! that document and a document back into a registry, rejecting documents
//! that fail validation instead of building a partial registry. The
//! serialization to and from concrete file text is the caller's concern;
//! everything structural happens here, deterministically, so that save
//! followed by load reproduces the registry exactly.

use vstd::prelude::*;

use crate::confidence::{valid_confidence, CONFIDENCE_SCALE};
use crate::models::{
    find_model_index, lemma_find_model_index, LanguageMapping,
    LanguageMappingView, ModelConfig, ModelConfigView, ModelRegistry, ModelRegistryView,
};
use crate::strutil::str_eq;

verus! {

/// The `registry` section of the document.
#[derive(Debug, Clone, PartialEq)]
pub struct RegistryConfig {
    pub default_model: String,
    pub confidence_fallback_enabled: bool,
    pub min_confidence_threshold: u32,
}

/// Mathematical image of `RegistryConfig`.
#[verifier::ext_equal]
pub struct RegistryConfigView {
    pub default_model: Seq<char>,
    pub confidence_fallback_enabled: bool,
    pub min_confidence_threshold: u32,
}

impl View for RegistryConfig {
    type V = RegistryConfigView;

    open spec fn view(&self) -> RegistryConfigView {
        RegistryConfigView {
            default_model: self.default_model@,
            confidence_fallback_enabled: self.confidence_fallback_enabled,
            min_confidence_threshold: self.min_confidence_threshold,
        }
    }
}

/// The whole document.
#[derive(Debug, Clone, PartialEq)]
pub struct ModelsFileConfig {
    pub registry: RegistryConfig,
    pub models: Vec<ModelConfig>,
    pub language_mappings: Option<Vec<LanguageMapping>>,
}

/// Mathematical image of `ModelsFileConfig`.
#[verifier::ext_equal]
pub struct ModelsFileConfigView {
    pub registry: RegistryConfigView,
    pub models: Seq<ModelConfigView>,
    pub language_mappings: Option<Seq<LanguageMappingView>>,
}

impl View for ModelsFileConfig {
    type V = ModelsFileConfigView;

    open spec fn view(&self) -> ModelsFileConfigView {
        ModelsFileConfigView {
            registry: self.registry@,
            models: self.models@.map_values(|c: ModelConfig| c@),
            language_mappings: match &self.language_mappings {
                Some(ms) => Some(ms@.map_values(|m: LanguageMapping| m@)),
                None => None,
            },
        }
    }
}

/// Why a document was rejected.
#[derive(Debug, Clone, PartialEq)]
pub enum RegistryParseError {
    /// A model's confidence threshold lies outside `[0, 1]`.
    InvalidModelThreshold { model_id: String },
    /// The global confidence floor lies outside `[0, 1]`.
    InvalidMinThreshold,
    /// Two language mappings name the same language.
    DuplicateLanguage { language: String },
}

/// Mathematical image of `RegistryParseError`.
pub enum RegistryParseErrorView {
    InvalidModelThreshold { model_id: Seq<char> },
    InvalidMinThreshold,
    DuplicateLanguage { language: Seq<char> },
}

impl View for RegistryParseError {
    type V = RegistryParseErrorView;

    open spec fn view(&self) -> RegistryParseErrorView {
        match self {
            RegistryParseError::InvalidModelThreshold { model_id } => {
                RegistryParseErrorView::InvalidModelThreshold { model_id: model_id@ }
            },
            RegistryParseError::InvalidMinThreshold => {
                RegistryParseErrorView::InvalidMinThreshold
            },
            RegistryParseError::DuplicateLanguage { language } => {
                RegistryParseErrorView::DuplicateLanguage { language: language@ }
            },
        }
    }
}

/// Registering one document model: an existing entry with the same
/// identifier is replaced in place, otherwise the model is appended — the
/// later document entry wins, as when a keyed catalog is filled in order.
pub open spec fn upsert_model(models: Seq<ModelConfigView>, c: ModelConfigView) -> Seq<
    ModelConfigView,
> {
    let i = find_model_index(models, c.id);
    if i == -1 {
        models.push(c)
    } else {
        models.update(i, c)
    }
}

/// The catalog built from the document's model list, in order.
pub open spec fn build_models(models: Seq<ModelConfigView>) -> Seq<ModelConfigView>
    decreases models.len(),
{
    if models.len() == 0 {
        Seq::empty()
    } else {
        upsert_model(build_models(models.drop_last()), models.last())
    }
}

/// Index of the first model whose threshold is invalid, or `-1`.
pub open spec fn first_bad_threshold(models: Seq<ModelConfigView>) -> int
    decreases models.len(),
{
    if models.len() == 0 {
        -1
    } else if !valid_confidence(models[0].confidence_threshold) {
        0
    } else {
        let r = first_bad_threshold(models.drop_first());
        if r == -1 {
            -1
        } else {
            r + 1
        }
    }
}

/// Index of the first mapping whose language already appeared, or `-1`.
pub open spec fn first_duplicate_language(mappings: Seq<LanguageMappingView>) -> int
    decreases mappings.len(),
{
    if mappings.len() == 0 {
        -1
    } else {
        let r = first_duplicate_language(mappings.drop_last());
        if r != -1 {
            r
        } else if exists|i: int|
            0 <= i < mappings.len() - 1 && mappings[i].language == mappings.last().language {
            mappings.len() - 1
        } else {
            -1
        }
    }
}

/// The mappings a document declares: the section's entries, or none.
pub open spec fn doc_mappings(doc: ModelsFileConfigView) -> Seq<LanguageMappingView> {
    match doc.language_mappings {
        Some(ms) => ms,
        None => Seq::empty(),
    }
}

/// Whether a document passes validation.
pub open spec fn doc_valid(doc: ModelsFileConfigView) -> bool {
    &&& first_bad_threshold(doc.models) == -1
    &&& valid_confidence(doc.registry.min_confidence_threshold)
    &&& first_duplicate_language(doc_mappings(doc)) == -1
}

/// The registry a valid document describes; `None` for invalid documents.
pub open spec fn spec_from_doc(doc: ModelsFileConfigView) -> Option<ModelRegistryView> {
    if doc_valid(doc) {
        Some(
            ModelRegistryView {
                models: build_models(doc.models),
                language_mappings: doc_mappings(doc),
                default_model: doc.registry.default_model,
                confidence_fallback_enabled: doc.registry.confidence_fallback_enabled,
                min_confidence_threshold: doc.registry.min_confidence_threshold,
            },
        )
    } else {
        None
    }
}

/// The document a registry is saved as: the catalog and the mappings in
/// their stored order, so repeated save/load cycles are stable.
pub open spec fn spec_to_doc(reg: ModelRegistryView) -> ModelsFileConfigView {
    ModelsFileConfigView {
        registry: RegistryConfigView {
            default_model: reg.default_model,
            confidence_fallback_enabled: reg.confidence_fallback_enabled,
            min_confidence_threshold: reg.min_confidence_threshold,
        },
        models: reg.models,
        language_mappings: Some(reg.language_mappings),
    }
}

impl ModelRegistry {
    /// Shapes this registry as its file document: models and mappings in
    /// stored order, scalars copied.
    pub fn to_file_config(&self) -> (r: ModelsFileConfig)
        ensures
            r@ == spec_to_doc(self@),
    {
        let mut models: Vec<ModelConfig> = Vec::new();
        let mut i: usize = 0;
        while i < self.models.len()
            invariant
                0 <= i <= self.models@.len(),
                models@.len() == i,
                forall|k: int| 0 <= k < i ==> models@[k]@ == self@.models[k],
            decreases self.models@.len() - i,
        {
            models.push(self.models[i].duplicate());
            i = i + 1;
        }
        let mut mappings: Vec<LanguageMapping> = Vec::new();
        let mut j: usize = 0;
        while j < self.language_mappings.len()
            invariant
                0 <= j <= self.language_mappings@.len(),
                mappings@.len() == j,
                forall|k: int| 0 <= k < j ==> mappings@[k]@ == self@.language_mappings[k],
            decreases self.language_mappings@.len() - j,
        {
            mappings.push(self.language_mappings[j].duplicate());
            j = j + 1;
        }
        let r = ModelsFileConfig {
            registry: RegistryConfig {
                default_model: self.default_model.clone(),
                confidence_fallback_enabled: self.confidence_fallback_enabled,
                min_confidence_threshold: self.min_confidence_threshold,
            },
            models,
            language_mappings: Some(mappings),
        };
        proof {
            assert(r@ =~= spec_to_doc(self@));
        }
        r
    }

    /// Builds a registry from a document. The document is validated
    /// first — a failing document yields the error naming the first
    /// offending entry, never a partial registry. On success the registry
    /// is well-formed: later duplicate model entries replace earlier ones,
    /// and duplicate languages are rejected.
    pub fn from_file_config(doc: ModelsFileConfig) -> (r: Result<
        ModelRegistry,
        RegistryParseError,
    >)
        ensures
            ({
                let bad = first_bad_threshold(doc@.models);
                let dup = first_duplicate_language(doc_mappings(doc@));
                &&& (r is Ok <==> doc_valid(doc@))
                &&& r matches Ok(reg) ==> (Some(reg@) == spec_from_doc(doc@) && reg@.wf())
                &&& bad != -1 ==> (r matches Err(e) && e@ == (RegistryParseErrorView::InvalidModelThreshold {
                    model_id: doc@.models[bad].id,
                }))
                &&& bad == -1 && !valid_confidence(doc@.registry.min_confidence_threshold) ==> (r
                    matches Err(e) && e@ == RegistryParseErrorView::InvalidMinThreshold)
                &&& bad == -1 && valid_confidence(doc@.registry.min_confidence_threshold) && dup
                    != -1 ==> (r matches Err(e) && e@ == (RegistryParseErrorView::DuplicateLanguage {
                    language: doc_mappings(doc@)[dup].language,
                }))
            }),
    {
        let ghost docv = doc@;
        // Reject the first model whose threshold is out of range.
        let mut i: usize = 0;
        while i < doc.models.len()
            invariant
                0 <= i <= doc.models@.len(),
                docv == doc@,
                forall|k: int|
                    0 <= k < i ==> valid_confidence(
                        (#[trigger] docv.models[k]).confidence_threshold,
                    ),
            decreases doc.models@.len() - i,
        {
            if doc.models[i].confidence_threshold > CONFIDENCE_SCALE {
                proof {
                    lemma_first_bad_threshold(docv.models, i as int);
                }
                return Err(
                    RegistryParseError::InvalidModelThreshold {
                        model_id: doc.models[i].id.clone(),
                    },
                );
            }
            i = i + 1;
        }
        proof {
            lemma_no_bad_threshold(docv.models);
        }
        // Reject an out-of-range global floor.
        if doc.registry.min_confidence_threshold > CONFIDENCE_SCALE {
            return Err(RegistryParseError::InvalidMinThreshold);
        }
        // Reject the first repeated language.
        let mappings: Vec<LanguageMapping> = match doc.language_mappings {
            Some(ms) => ms,
            None => Vec::new(),
        };
        let ghost mapv = mappings@.map_values(|m: LanguageMapping| m@);
        proof {
            assert(mapv =~= doc_mappings(docv));
        }
        let mut a: usize = 1;
        while a < mappings.len()
            invariant
                1 <= a <= mappings@.len() || mappings@.len() == 0,
                docv == doc@,
                mapv == doc_mappings(docv),
                first_bad_threshold(docv.models) == -1,
                valid_confidence(docv.registry.min_confidence_threshold),
                mapv == mappings@.map_values(|m: LanguageMapping| m@),
                forall|x: int, y: int|
                    0 <= x < y < a ==> mapv[x].language != mapv[y].language,
            decreases mappings@.len() - a,
        {
            let mut b: usize = 0;
            while b < a
                invariant
                    0 <= b <= a < mappings@.len(),
                    docv == doc@,
                    mapv == doc_mappings(docv),
                    first_bad_threshold(docv.models) == -1,
                    valid_confidence(docv.registry.min_confidence_threshold),
                    mapv == mappings@.map_values(|m: LanguageMapping| m@),
                    forall|x: int, y: int|
                        0 <= x < y < a ==> mapv[x].language != mapv[y].language,
                    forall|x: int| 0 <= x < b ==> mapv[x].language != mapv[a as int].language,
                decreases a - b,
            {
                if str_eq(
                    mappings[b].language.as_str(),
                    mappings[a].language.as_str(),
                ) {
                    proof {
                        assert(mapv[b as int].language == mapv[a as int].language);
                        assert(exists|x: int|
                            0 <= x < a && mapv[x].language == mapv[a as int].language) by {
                            assert(mapv[b as int].language == mapv[a as int].language);
                        }
                        lemma_first_duplicate_language_at(mapv, a as int);
                    }
                    return Err(
                        RegistryParseError::DuplicateLanguage {
                            language: mappings[a].language.clone(),
                        },
                    );
                }
                b = b + 1;
            }
            a = a + 1;
        }
        proof {
            lemma_no_duplicate_language(mapv);
        }
        // Build the catalog in document order: later entries replace
        // earlier entries with the same identifier.
        let mut registry = ModelRegistry {
            models: Vec::new(),
            language_mappings: mappings,
            default_model: doc.registry.default_model,
            confidence_fallback_enabled: doc.registry.confidence_fallback_enabled,
            min_confidence_threshold: doc.registry.min_confidence_threshold,
        };
        proof {
            assert(registry@.models =~= build_models(docv.models.take(0)));
            assert(registry@.wf());
        }
        let mut m: usize = 0;
        while m < doc.models.len()
            invariant
                0 <= m <= doc.models@.len(),
                docv == doc@,
                registry@.models == build_models(docv.models.take(m as int)),
                registry@.language_mappings == doc_mappings(docv),
                registry@.default_model == docv.registry.default_model,
                registry@.confidence_fallback_enabled
                    == docv.registry.confidence_fallback_enabled,
                registry@.min_confidence_threshold == docv.registry.min_confidence_threshold,
                registry@.wf(),
                forall|k: int|
                    0 <= k < docv.models.len() ==> valid_confidence(
                        (#[trigger] docv.models[k]).confidence_threshold,
                    ),
            decreases doc.models@.len() - m,
        {
            let config = doc.models[m].duplicate();
            proof {
                assert(config@ == docv.models[m as int]);
                assert(config@.wf());
                assert(docv.models.take(m + 1).drop_last() =~= docv.models.take(m as int));
                assert(docv.models.take(m + 1).last() == docv.models[m as int]);
            }
            registry.add_model(config);
            m = m + 1;
        }
        proof {
            assert(docv.models.take(docv.models.len() as int) =~= docv.models);
            assert(Some(registry@) =~= spec_from_doc(docv));
        }
        Ok(registry)
    }
}

/// When entry `i` is the first invalid threshold, the scan reports `i`.
proof fn lemma_first_bad_threshold(models: Seq<ModelConfigView>, i: int)
    requires
        0 <= i < models.len(),
        !valid_confidence(models[i].confidence_threshold),
        forall|k: int|
            0 <= k < i ==> valid_confidence((#[trigger] models[k]).confidence_threshold),
    ensures
        first_bad_threshold(models) == i,
    decreases i,
{
    if i > 0 {
        lemma_first_bad_threshold(models.drop_first(), i - 1);
    }
}

/// When every threshold is valid, the scan reports none.
proof fn lemma_no_bad_threshold(models: Seq<ModelConfigView>)
    requires
        forall|k: int|
            0 <= k < models.len() ==> valid_confidence(
                (#[trigger] models[k]).confidence_threshold,
            ),
    ensures
        first_bad_threshold(models) == -1,
    decreases models.len(),
{
    if models.len() > 0 {
        lemma_no_bad_threshold(models.drop_first());
    }
}

/// When the pair `(b, a)` is the first repetition (everything before `a`
/// is pairwise distinct), the scan reports `a`.
proof fn lemma_first_duplicate_language_at(mappings: Seq<LanguageMappingView>, a: int)
    requires
        0 <= a < mappings.len(),
        exists|x: int| 0 <= x < a && mappings[x].language == mappings[a].language,
        forall|x: int, y: int| 0 <= x < y < a ==> mappings[x].language != mappings[y].language,
    ensures
        first_duplicate_language(mappings.take(a + 1)) == a,
        first_duplicate_language(mappings) == a,
    decreases mappings.len(),
{
    let pre = mappings.take(a + 1);
    assert(pre.drop_last() =~= mappings.take(a));
    lemma_no_duplicate_language(mappings.take(a));
    assert(pre.last() == mappings[a]);
    let x = choose|x: int| 0 <= x < a && mappings[x].language == mappings[a].language;
    assert(mappings.take(a)[x] == mappings[x]);
    assert(exists|i: int|
        0 <= i < pre.len() - 1 && pre[i].language == pre.last().language) by {
        assert(pre[x].language == pre.last().language);
    }
    assert(first_duplicate_language(pre) == a);
    if a + 1 < mappings.len() {
        lemma_duplicate_language_extends(mappings, a + 1);
    } else {
        assert(pre =~= mappings);
    }
}

/// Once a prefix reports a first repetition, the whole sequence reports
/// the same one.
proof fn lemma_duplicate_language_extends(mappings: Seq<LanguageMappingView>, from: int)
    requires
        0 < from <= mappings.len(),
        first_duplicate_language(mappings.take(from)) != -1,
    ensures
        first_duplicate_language(mappings) == first_duplicate_language(mappings.take(from)),
    decreases mappings.len() - from,
{
    if from == mappings.len() {
        assert(mappings.take(from) =~= mappings);
    } else {
        let next = mappings.take(from + 1);
        assert(next.drop_last() =~= mappings.take(from));
        assert(first_duplicate_language(next) == first_duplicate_language(mappings.take(from)));
        lemma_duplicate_language_extends(mappings, from + 1);
    }
}

/// When all languages are pairwise distinct, the scan reports none.
proof fn lemma_no_duplicate_language(mappings: Seq<LanguageMappingView>)
    requires
        forall|x: int, y: int|
            0 <= x < y < mappings.len() ==> mappings[x].language != mappings[y].language,
    ensures
        first_duplicate_language(mappings) == -1,
    decreases mappings.len(),
{
    if mappings.len() > 0 {
        let init = mappings.drop_last();
        assert(forall|x: int, y: int|
            0 <= x < y < init.len() ==> init[x].language != init[y].language);
        lemma_no_duplicate_language(init);
        assert(!exists|i: int|
            0 <= i < mappings.len() - 1 && mappings[i].language == mappings.last().language) by {
            if exists|i: int|
                0 <= i < mappings.len() - 1 && mappings[i].language == mappings.last().language {
                let i = choose|i: int|
                    0 <= i < mappings.len() - 1 && mappings[i].language
                        == mappings.last().language;
                assert(mappings[i].language != mappings[mappings.len() - 1].language);
            }
        }
    }
}

/// Rebuilding a catalog whose identifiers are already unique changes
/// nothing: every upsert appends.
proof fn lemma_build_models_distinct(models: Seq<ModelConfigView>)
    requires
        forall|i: int, j: int| 0 <= i < j < models.len() ==> models[i].id != models[j].id,
    ensures
        build_models(models) == models,
    decreases models.len(),
{
    if models.len() > 0 {
        let init = models.drop_last();
        assert(forall|i: int, j: int| 0 <= i < j < init.len() ==> init[i].id != init[j].id);
        lemma_build_models_distinct(init);
        lemma_find_model_index(init, models.last().id);
        let idx = find_model_index(init, models.last().id);
        if idx != -1 {
            assert(init[idx].id == models.last().id);
            assert(models[idx].id != models[models.len() - 1].id);
        }
        assert(build_models(models) =~= models);
    }
}

/// **Round-trip law.** Saving a well-formed registry as its document and
/// loading that document back yields the same registry: the same model
/// set in the same order, the same language mappings, and the same scalar
/// fields. Registries built by `add_model` and `remove_model` stay
/// well-formed, so every such registry round-trips.
pub proof fn lemma_registry_round_trip(reg: ModelRegistryView)
    requires
        reg.wf(),
    ensures
        spec_from_doc(spec_to_doc(reg)) == Some(reg),
{
    let doc = spec_to_doc(reg);
    assert(forall|k: int|
        0 <= k < doc.models.len() ==> valid_confidence(
            (#[trigger] doc.models[k]).confidence_threshold,
        ));
    lemma_no_bad_threshold(doc.models);
    lemma_no_duplicate_language(doc_mappings(doc));
    lemma_build_models_distinct(doc.models);
    assert(spec_from_doc(doc)->Some_0 =~= reg);
}

} // verus!
