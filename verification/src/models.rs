//! The model catalog: providers, model configurations, and the registry.
//!
//! A `ModelRegistry` holds a set of `ModelConfig` records keyed by their
//! identifier, a curated mapping from language codes to ordered candidate
//! lists, the default model identifier, and the policy switches used by the
//! fallback orchestrator. Identifiers are unique within a registry, and
//! every confidence threshold lies in the fixed-point range `[0, 1]`.

use vstd::prelude::*;

use crate::confidence::valid_confidence;
use crate::strutil::str_eq;

verus! {

/// The backend that runs a model: a small closed set, plus a catch-all
/// variant carrying a free-form tag.
#[derive(Debug, Clone, PartialEq)]
pub enum ModelProvider {
    WhisperCLI,
    HuggingFace,
    OpenAI,
    Local,
    Native,
    Custom(String),
}

/// Mathematical image of `ModelProvider`: the custom tag as a character
/// sequence.
pub enum ModelProviderView {
    WhisperCLI,
    HuggingFace,
    OpenAI,
    Local,
    Native,
    Custom(Seq<char>),
}

impl View for ModelProvider {
    type V = ModelProviderView;

    open spec fn view(&self) -> ModelProviderView {
        match self {
            ModelProvider::WhisperCLI => ModelProviderView::WhisperCLI,
            ModelProvider::HuggingFace => ModelProviderView::HuggingFace,
            ModelProvider::OpenAI => ModelProviderView::OpenAI,
            ModelProvider::Local => ModelProviderView::Local,
            ModelProvider::Native => ModelProviderView::Native,
            ModelProvider::Custom(tag) => ModelProviderView::Custom(tag@),
        }
    }
}

impl ModelProvider {
    /// An exact copy: the result's view equals this value's view.
    pub fn duplicate(&self) -> (r: ModelProvider)
        ensures
            r@ == self@,
    {
        match self {
            ModelProvider::WhisperCLI => ModelProvider::WhisperCLI,
            ModelProvider::HuggingFace => ModelProvider::HuggingFace,
            ModelProvider::OpenAI => ModelProvider::OpenAI,
            ModelProvider::Local => ModelProvider::Local,
            ModelProvider::Native => ModelProvider::Native,
            ModelProvider::Custom(tag) => ModelProvider::Custom(tag.clone()),
        }
    }

    /// Whether an engine adapter exists for this provider: the orchestrator
    /// can invoke whisper-style backends directly; the remaining providers
    /// are declared but have no adapter yet.
    pub fn is_supported(&self) -> (r: bool)
        ensures
            r == self@.adapter_available(),
    {
        match self {
            ModelProvider::WhisperCLI => true,
            ModelProvider::HuggingFace => true,
            ModelProvider::Native => true,
            ModelProvider::OpenAI => false,
            ModelProvider::Local => false,
            ModelProvider::Custom(_) => false,
        }
    }
}

impl ModelProviderView {
    /// Providers with a working engine adapter.
    pub open spec fn adapter_available(self) -> bool {
        match self {
            ModelProviderView::WhisperCLI => true,
            ModelProviderView::HuggingFace => true,
            ModelProviderView::Native => true,
            _ => false,
        }
    }
}

/// One named transcription configuration.
///
/// `confidence_threshold` is fixed-point (millionths): a result whose
/// confidence meets or exceeds it is good enough and ends the fallback
/// search. `priority` orders candidates (lower runs earlier). The
/// `fallback_models` list is advisory metadata; the candidate selector
/// computes the true search order.
#[derive(Debug, Clone, PartialEq)]
pub struct ModelConfig {
    pub id: String,
    pub provider: ModelProvider,
    pub model_path: String,
    pub language: Option<String>,
    pub priority: u8,
    pub confidence_threshold: u32,
    pub fallback_models: Vec<String>,
    pub parameters: Vec<(String, String)>,
}

/// Mathematical image of `ModelConfig`.
#[verifier::ext_equal]
pub struct ModelConfigView {
    pub id: Seq<char>,
    pub provider: ModelProviderView,
    pub model_path: Seq<char>,
    pub language: Option<Seq<char>>,
    pub priority: u8,
    pub confidence_threshold: u32,
    pub fallback_models: Seq<Seq<char>>,
    pub parameters: Seq<(Seq<char>, Seq<char>)>,
}

/// The views of a sequence of strings.
pub open spec fn strings_view(s: Seq<String>) -> Seq<Seq<char>> {
    s.map_values(|x: String| x@)
}

/// The views of a sequence of string pairs.
pub open spec fn pairs_view(s: Seq<(String, String)>) -> Seq<(Seq<char>, Seq<char>)> {
    s.map_values(|p: (String, String)| (p.0@, p.1@))
}

impl View for ModelConfig {
    type V = ModelConfigView;

    open spec fn view(&self) -> ModelConfigView {
        ModelConfigView {
            id: self.id@,
            provider: self.provider@,
            model_path: self.model_path@,
            language: match self.language {
                Some(l) => Some(l@),
                None => None,
            },
            priority: self.priority,
            confidence_threshold: self.confidence_threshold,
            fallback_models: strings_view(self.fallback_models@),
            parameters: pairs_view(self.parameters@),
        }
    }
}

impl ModelConfigView {
    /// Well-formedness of a single configuration: the threshold is a valid
    /// fixed-point confidence.
    pub open spec fn wf(self) -> bool {
        valid_confidence(self.confidence_threshold)
    }
}

/// An exact copy of a vector of strings.
pub(crate) fn duplicate_strings(v: &Vec<String>) -> (r: Vec<String>)
    ensures
        strings_view(r@) == strings_view(v@),
{
    let mut out: Vec<String> = Vec::new();
    let mut i: usize = 0;
    while i < v.len()
        invariant
            0 <= i <= v@.len(),
            out@.len() == i,
            forall|k: int| 0 <= k < i ==> out@[k]@ == v@[k]@,
        decreases v@.len() - i,
    {
        out.push(v[i].clone());
        i = i + 1;
    }
    proof {
        assert(strings_view(out@) =~= strings_view(v@));
    }
    out
}

/// An exact copy of a vector of string pairs.
pub(crate) fn duplicate_pairs(v: &Vec<(String, String)>) -> (r: Vec<(String, String)>)
    ensures
        pairs_view(r@) == pairs_view(v@),
{
    let mut out: Vec<(String, String)> = Vec::new();
    let mut i: usize = 0;
    while i < v.len()
        invariant
            0 <= i <= v@.len(),
            out@.len() == i,
            forall|k: int| 0 <= k < i ==> out@[k].0@ == v@[k].0@ && out@[k].1@ == v@[k].1@,
        decreases v@.len() - i,
    {
        let p = &v[i];
        out.push((p.0.clone(), p.1.clone()));
        i = i + 1;
    }
    proof {
        assert(pairs_view(out@) =~= pairs_view(v@));
    }
    out
}

impl ModelConfig {
    /// An exact copy: the result's view equals this value's view.
    pub fn duplicate(&self) -> (r: ModelConfig)
        ensures
            r@ == self@,
    {
        let language: Option<String> = match &self.language {
            Some(l) => Some(l.clone()),
            None => None,
        };
        let r = ModelConfig {
            id: self.id.clone(),
            provider: self.provider.duplicate(),
            model_path: self.model_path.clone(),
            language,
            priority: self.priority,
            confidence_threshold: self.confidence_threshold,
            fallback_models: duplicate_strings(&self.fallback_models),
            parameters: duplicate_pairs(&self.parameters),
        };
        proof {
            assert(r@ =~= self@);
        }
        r
    }
}

/// One curated language entry: a language code and the ordered identifiers
/// of the models preferred for it.
#[derive(Debug, Clone, PartialEq)]
pub struct LanguageMapping {
    pub language: String,
    pub model_ids: Vec<String>,
}

/// Mathematical image of `LanguageMapping`.
#[verifier::ext_equal]
pub struct LanguageMappingView {
    pub language: Seq<char>,
    pub model_ids: Seq<Seq<char>>,
}

impl View for LanguageMapping {
    type V = LanguageMappingView;

    open spec fn view(&self) -> LanguageMappingView {
        LanguageMappingView { language: self.language@, model_ids: strings_view(self.model_ids@) }
    }
}

impl LanguageMapping {
    /// An exact copy: the result's view equals this value's view.
    pub fn duplicate(&self) -> (r: LanguageMapping)
        ensures
            r@ == self@,
    {
        let r = LanguageMapping {
            language: self.language.clone(),
            model_ids: duplicate_strings(&self.model_ids),
        };
        proof {
            assert(r@ =~= self@);
        }
        r
    }
}

/// The catalog of known models and language preferences, plus the policy
/// switches read by the fallback orchestrator.
#[derive(Debug, Clone, PartialEq)]
pub struct ModelRegistry {
    pub models: Vec<ModelConfig>,
    pub language_mappings: Vec<LanguageMapping>,
    pub default_model: String,
    pub confidence_fallback_enabled: bool,
    pub min_confidence_threshold: u32,
}

/// Mathematical image of `ModelRegistry`.
#[verifier::ext_equal]
pub struct ModelRegistryView {
    pub models: Seq<ModelConfigView>,
    pub language_mappings: Seq<LanguageMappingView>,
    pub default_model: Seq<char>,
    pub confidence_fallback_enabled: bool,
    pub min_confidence_threshold: u32,
}

impl View for ModelRegistry {
    type V = ModelRegistryView;

    open spec fn view(&self) -> ModelRegistryView {
        ModelRegistryView {
            models: self.models@.map_values(|c: ModelConfig| c@),
            language_mappings: self.language_mappings@.map_values(|m: LanguageMapping| m@),
            default_model: self.default_model@,
            confidence_fallback_enabled: self.confidence_fallback_enabled,
            min_confidence_threshold: self.min_confidence_threshold,
        }
    }
}

/// The first configuration whose identifier is `id`, scanning from the
/// front, or `None` when no configuration has that identifier.
pub open spec fn find_model(models: Seq<ModelConfigView>, id: Seq<char>) -> Option<ModelConfigView>
    decreases models.len(),
{
    if models.len() == 0 {
        None
    } else if models[0].id == id {
        Some(models[0])
    } else {
        find_model(models.drop_first(), id)
    }
}

/// The first mapping whose language is `lang`, or `None`.
pub open spec fn find_mapping(mappings: Seq<LanguageMappingView>, lang: Seq<char>) -> Option<
    LanguageMappingView,
>
    decreases mappings.len(),
{
    if mappings.len() == 0 {
        None
    } else if mappings[0].language == lang {
        Some(mappings[0])
    } else {
        find_mapping(mappings.drop_first(), lang)
    }
}

/// When entry `i` matches and no earlier entry does, the scan finds it.
pub proof fn lemma_find_model_present(models: Seq<ModelConfigView>, id: Seq<char>, i: int)
    requires
        0 <= i < models.len(),
        models[i].id == id,
        forall|k: int| 0 <= k < i ==> models[k].id != id,
    ensures
        find_model(models, id) == Some(models[i]),
    decreases i,
{
    if i > 0 {
        lemma_find_model_present(models.drop_first(), id, i - 1);
    }
}

/// When no entry matches, the scan finds nothing.
pub proof fn lemma_find_model_absent(models: Seq<ModelConfigView>, id: Seq<char>)
    requires
        forall|k: int| 0 <= k < models.len() ==> models[k].id != id,
    ensures
        find_model(models, id) is None,
    decreases models.len(),
{
    if models.len() > 0 {
        lemma_find_model_absent(models.drop_first(), id);
    }
}

/// When entry `i` matches and no earlier entry does, the scan finds it.
pub proof fn lemma_find_mapping_present(mappings: Seq<LanguageMappingView>, lang: Seq<char>, i: int)
    requires
        0 <= i < mappings.len(),
        mappings[i].language == lang,
        forall|k: int| 0 <= k < i ==> mappings[k].language != lang,
    ensures
        find_mapping(mappings, lang) == Some(mappings[i]),
    decreases i,
{
    if i > 0 {
        lemma_find_mapping_present(mappings.drop_first(), lang, i - 1);
    }
}

/// When no entry matches, the scan finds nothing.
pub proof fn lemma_find_mapping_absent(mappings: Seq<LanguageMappingView>, lang: Seq<char>)
    requires
        forall|k: int| 0 <= k < mappings.len() ==> mappings[k].language != lang,
    ensures
        find_mapping(mappings, lang) is None,
    decreases mappings.len(),
{
    if mappings.len() > 0 {
        lemma_find_mapping_absent(mappings.drop_first(), lang);
    }
}

impl ModelRegistryView {
    /// Well-formedness: identifiers are unique, languages are unique, and
    /// every confidence threshold is a valid fixed-point value.
    pub open spec fn wf(self) -> bool {
        &&& forall|i: int, j: int|
            0 <= i < j < self.models.len() ==> self.models[i].id != self.models[j].id
        &&& forall|i: int| 0 <= i < self.models.len() ==> (#[trigger] self.models[i]).wf()
        &&& forall|i: int, j: int|
            0 <= i < j < self.language_mappings.len() ==> self.language_mappings[i].language
                != self.language_mappings[j].language
        &&& valid_confidence(self.min_confidence_threshold)
    }

    /// Whether a configuration named `id` exists.
    pub open spec fn has_model(self, id: Seq<char>) -> bool {
        find_model(self.models, id) is Some
    }

    /// The configuration named `id`; meaningful only when `has_model(id)`.
    pub open spec fn model_named(self, id: Seq<char>) -> ModelConfigView {
        find_model(self.models, id)->Some_0
    }

    /// The curated candidate list for `lang`, when one exists.
    pub open spec fn mapping_for(self, lang: Seq<char>) -> Option<Seq<Seq<char>>> {
        match find_mapping(self.language_mappings, lang) {
            Some(m) => Some(m.model_ids),
            None => None,
        }
    }

    /// The priority used to order candidate `id`: its configuration's
    /// priority, or the maximum value when the identifier is unregistered,
    /// so unknown candidates sort last rather than failing the selection.
    pub open spec fn priority_of(self, id: Seq<char>) -> int {
        match find_model(self.models, id) {
            Some(m) => m.priority as int,
            None => u8::MAX as int,
        }
    }
}

impl ModelRegistry {
    /// Looks up a model configuration by identifier.
    pub fn get_model(&self, model_id: &str) -> (r: Option<&ModelConfig>)
        ensures
            match r {
                Some(c) => find_model(self@.models, model_id@) == Some(c@),
                None => find_model(self@.models, model_id@) is None,
            },
    {
        let mut i: usize = 0;
        while i < self.models.len()
            invariant
                0 <= i <= self.models@.len(),
                forall|k: int| 0 <= k < i ==> self@.models[k].id != model_id@,
            decreases self.models@.len() - i,
        {
            if str_eq(self.models[i].id.as_str(), model_id) {
                proof {
                    lemma_find_model_present(self@.models, model_id@, i as int);
                }
                return Some(&self.models[i]);
            }
            i = i + 1;
        }
        proof {
            lemma_find_model_absent(self@.models, model_id@);
        }
        None
    }

    /// Looks up the curated mapping entry for a language code.
    pub fn get_mapping(&self, language: &str) -> (r: Option<&LanguageMapping>)
        ensures
            match r {
                Some(m) => find_mapping(self@.language_mappings, language@) == Some(m@),
                None => find_mapping(self@.language_mappings, language@) is None,
            },
    {
        let mut i: usize = 0;
        while i < self.language_mappings.len()
            invariant
                0 <= i <= self.language_mappings@.len(),
                forall|k: int| 0 <= k < i ==> self@.language_mappings[k].language != language@,
            decreases self.language_mappings@.len() - i,
        {
            if str_eq(self.language_mappings[i].language.as_str(), language) {
                proof {
                    lemma_find_mapping_present(self@.language_mappings, language@, i as int);
                }
                return Some(&self.language_mappings[i]);
            }
            i = i + 1;
        }
        proof {
            lemma_find_mapping_absent(self@.language_mappings, language@);
        }
        None
    }
}

/// Index of the first configuration named `id`, or `-1` when absent.
pub open spec fn find_model_index(models: Seq<ModelConfigView>, id: Seq<char>) -> int
    decreases models.len(),
{
    if models.len() == 0 {
        -1
    } else if models[0].id == id {
        0
    } else {
        let r = find_model_index(models.drop_first(), id);
        if r == -1 {
            -1
        } else {
            r + 1
        }
    }
}

/// How `find_model_index` relates to `find_model`: a non-negative index is
/// the position of the first match; `-1` means no entry matches.
pub proof fn lemma_find_model_index(models: Seq<ModelConfigView>, id: Seq<char>)
    ensures
        ({
            let i = find_model_index(models, id);
            &&& i == -1 ==> (forall|k: int| 0 <= k < models.len() ==> models[k].id != id)
                && find_model(models, id) is None
            &&& i != -1 ==> 0 <= i < models.len() && models[i].id == id && (forall|k: int|
                0 <= k < i ==> models[k].id != id) && find_model(models, id) == Some(models[i])
        }),
    decreases models.len(),
{
    if models.len() > 0 && models[0].id != id {
        let rest = models.drop_first();
        lemma_find_model_index(rest, id);
        let r = find_model_index(rest, id);
        if r == -1 {
            assert forall|k: int| 0 <= k < models.len() implies models[k].id != id by {
                if k > 0 {
                    assert(rest[k - 1] == models[k]);
                }
            }
        } else {
            assert(models[r + 1] == rest[r]);
            assert forall|k: int| 0 <= k < r + 1 implies models[k].id != id by {
                if k > 0 {
                    assert(rest[k - 1] == models[k]);
                }
            }
        }
    }
}

impl ModelRegistry {
    /// Registers a configuration: replaces the entry with the same
    /// identifier in place, or appends a new entry. Everything else in the
    /// registry is untouched, and well-formedness is preserved for a
    /// well-formed configuration.
    pub fn add_model(&mut self, config: ModelConfig)
        ensures
            ({
                let i = find_model_index(old(self)@.models, config@.id);
                &&& i == -1 ==> final(self)@.models == old(self)@.models.push(config@)
                &&& i != -1 ==> final(self)@.models == old(self)@.models.update(i, config@)
            }),
            final(self)@.language_mappings == old(self)@.language_mappings,
            final(self)@.default_model == old(self)@.default_model,
            final(self)@.confidence_fallback_enabled == old(self)@.confidence_fallback_enabled,
            final(self)@.min_confidence_threshold == old(self)@.min_confidence_threshold,
            old(self)@.wf() && config@.wf() ==> final(self)@.wf(),
    {
        let ghost orig = self@.models;
        let mut i: usize = 0;
        while i < self.models.len()
            invariant
                0 <= i <= self.models@.len(),
                *self == *old(self),
                orig == self@.models,
                forall|k: int| 0 <= k < i ==> self@.models[k].id != config@.id,
            decreases self.models@.len() - i,
        {
            if str_eq(self.models[i].id.as_str(), config.id.as_str()) {
                proof {
                    lemma_find_model_index(orig, config@.id);
                    let idx = find_model_index(orig, config@.id);
                    assert(orig[i as int].id == config@.id);
                    if idx != -1 && idx < i as int {
                        assert(orig[idx].id == config@.id);
                        assert(orig[idx].id != config@.id);
                    }
                    assert(idx == i as int);
                }
                self.models[i] = config;
                proof {
                    assert(self@.models =~= orig.update(i as int, config@));
                    let nm = self@.models;
                    if old(self)@.wf() && config@.wf() {
                        assert forall|a: int, b: int| 0 <= a < b < nm.len() implies nm[a].id
                            != nm[b].id by {
                            assert(orig[a].id != orig[b].id);
                        }
                        assert forall|a: int| 0 <= a < nm.len() implies (#[trigger] nm[a]).wf()
                            by {
                            assert(orig[a].wf());
                        }
                        assert(self@.language_mappings == old(self)@.language_mappings);
                        assert(self@.models == nm);
                        assert(self@.wf());
                    }
                }
                return ;
            }
            i = i + 1;
        }
        proof {
            lemma_find_model_index(orig, config@.id);
            assert(find_model_index(orig, config@.id) == -1);
        }
        self.models.push(config);
        proof {
            assert(self@.models =~= orig.push(config@));
            let nm = self@.models;
            if old(self)@.wf() && config@.wf() {
                assert forall|a: int, b: int| 0 <= a < b < nm.len() implies nm[a].id != nm[b].id
                    by {
                    if b < nm.len() - 1 {
                        assert(orig[a].id != orig[b].id);
                    } else {
                        assert(orig[a].id != config@.id);
                    }
                }
                assert forall|a: int| 0 <= a < nm.len() implies (#[trigger] nm[a]).wf() by {
                    if a < nm.len() - 1 {
                        assert(orig[a].wf());
                    }
                }
                assert(self@.language_mappings == old(self)@.language_mappings);
                assert(self@.models == nm);
                assert(self@.wf());
            }
        }
    }

    /// Unregisters the configuration named `model_id`, reporting whether
    /// one was present. The remaining entries keep their order, everything
    /// else in the registry is untouched, and well-formedness is preserved.
    pub fn remove_model(&mut self, model_id: &str) -> (removed: bool)
        ensures
            ({
                let i = find_model_index(old(self)@.models, model_id@);
                &&& removed == (i != -1)
                &&& i == -1 ==> final(self)@.models == old(self)@.models
                &&& i != -1 ==> final(self)@.models == old(self)@.models.remove(i)
            }),
            final(self)@.language_mappings == old(self)@.language_mappings,
            final(self)@.default_model == old(self)@.default_model,
            final(self)@.confidence_fallback_enabled == old(self)@.confidence_fallback_enabled,
            final(self)@.min_confidence_threshold == old(self)@.min_confidence_threshold,
            old(self)@.wf() ==> final(self)@.wf(),
    {
        let ghost orig = self@.models;
        let mut i: usize = 0;
        while i < self.models.len()
            invariant
                0 <= i <= self.models@.len(),
                *self == *old(self),
                orig == self@.models,
                forall|k: int| 0 <= k < i ==> self@.models[k].id != model_id@,
            decreases self.models@.len() - i,
        {
            if str_eq(self.models[i].id.as_str(), model_id) {
                proof {
                    lemma_find_model_index(orig, model_id@);
                    let idx = find_model_index(orig, model_id@);
                    assert(orig[i as int].id == model_id@);
                    if idx != -1 && idx < i as int {
                        assert(orig[idx].id == model_id@);
                        assert(orig[idx].id != model_id@);
                    }
                    assert(idx == i as int);
                }
                self.models.remove(i);
                proof {
                    assert(self@.models =~= orig.remove(i as int));
                    let nm = self@.models;
                    let iv = i as int;
                    if old(self)@.wf() {
                        assert forall|a: int, b: int| 0 <= a < b < nm.len() implies nm[a].id
                            != nm[b].id by {
                            let av = if a < iv { a } else { a + 1 };
                            let bv = if b < iv { b } else { b + 1 };
                            assert(nm[a] == orig[av]);
                            assert(nm[b] == orig[bv]);
                            assert(orig[av].id != orig[bv].id);
                        }
                        assert forall|a: int| 0 <= a < nm.len() implies (#[trigger] nm[a]).wf()
                            by {
                            let av = if a < iv { a } else { a + 1 };
                            assert(nm[a] == orig[av]);
                            assert(orig[av].wf());
                        }
                        assert(self@.language_mappings == old(self)@.language_mappings);
                        assert(self@.models == nm);
                        assert(self@.wf());
                    }
                }
                return true;
            }
            i = i + 1;
        }
        proof {
            lemma_find_model_index(orig, model_id@);
            assert(find_model_index(orig, model_id@) == -1);
        }
        false
    }

    /// All registered configurations, in registration order.
    pub fn list_models(&self) -> (r: Vec<&ModelConfig>)
        ensures
            r@.len() == self@.models.len(),
            forall|k: int| 0 <= k < r@.len() ==> r@[k]@ == self@.models[k],
    {
        let mut out: Vec<&ModelConfig> = Vec::new();
        let mut i: usize = 0;
        while i < self.models.len()
            invariant
                0 <= i <= self.models@.len(),
                out@.len() == i,
                forall|k: int| 0 <= k < i ==> out@[k]@ == self@.models[k],
            decreases self.models@.len() - i,
        {
            out.push(&self.models[i]);
            i = i + 1;
        }
        out
    }
}

/// The configurations named by `ids`, in list order, skipping identifiers
/// that have no registered configuration.
pub open spec fn resolve_ids(models: Seq<ModelConfigView>, ids: Seq<Seq<char>>) -> Seq<
    ModelConfigView,
>
    decreases ids.len(),
{
    if ids.len() == 0 {
        Seq::empty()
    } else {
        let init = resolve_ids(models, ids.drop_last());
        match find_model(models, ids.last()) {
            Some(m) => init.push(m),
            None => init,
        }
    }
}

impl ModelRegistryView {
    /// What `list_models_for_language` returns: the direct projection of
    /// the language mapping through the model catalog; the empty sequence
    /// when the language has no mapping.
    pub open spec fn models_for_language(self, lang: Seq<char>) -> Seq<ModelConfigView> {
        match self.mapping_for(lang) {
            Some(ids) => resolve_ids(self.models, ids),
            None => Seq::empty(),
        }
    }
}

impl ModelRegistry {
    /// The configurations curated for `language`, in their stored order.
    /// An unknown language yields the empty list, not an error.
    pub fn list_models_for_language(&self, language: &str) -> (r: Vec<&ModelConfig>)
        ensures
            r@.len() == self@.models_for_language(language@).len(),
            forall|k: int|
                0 <= k < r@.len() ==> r@[k]@ == self@.models_for_language(language@)[k],
            self@.mapping_for(language@) is None ==> r@.len() == 0,
    {
        let mut out: Vec<&ModelConfig> = Vec::new();
        let mapping = match self.get_mapping(language) {
            Some(m) => m,
            None => {
                return out;
            },
        };
        let ghost ids = mapping@.model_ids;
        let mut i: usize = 0;
        while i < mapping.model_ids.len()
            invariant
                0 <= i <= ids.len(),
                ids == mapping@.model_ids,
                mapping@.model_ids.len() == mapping.model_ids@.len(),
                forall|k: int| 0 <= k < ids.len() ==> ids[k] == mapping.model_ids@[k]@,
                out@.len() == resolve_ids(self@.models, ids.take(i as int)).len(),
                forall|k: int|
                    0 <= k < out@.len() ==> out@[k]@ == resolve_ids(
                        self@.models,
                        ids.take(i as int),
                    )[k],
            decreases ids.len() - i,
        {
            let ghost prefix = ids.take(i as int);
            proof {
                assert(ids.take(i + 1).drop_last() =~= prefix);
                assert(ids.take(i + 1).last() == ids[i as int]);
            }
            match self.get_model(mapping.model_ids[i].as_str()) {
                Some(c) => {
                    out.push(c);
                },
                None => {},
            }
            i = i + 1;
        }
        proof {
            assert(ids.take(ids.len() as int) =~= ids);
        }
        out
    }
}

/// The registry the system starts from when no custom catalog is given:
/// two Kannada models and two English models, with curated language
/// mappings and confidence fallback enabled.
pub open spec fn spec_default_registry() -> ModelRegistryView {
    ModelRegistryView {
        models: seq![
            ModelConfigView {
                id: "whisper-kannada-small"@,
                provider: ModelProviderView::HuggingFace,
                model_path: "vasista22/whisper-kannada-small"@,
                language: Some("kn"@),
                priority: 1,
                confidence_threshold: 750000,
                fallback_models: seq!["whisper-kannada-base"@],
                parameters: Seq::empty(),
            },
            ModelConfigView {
                id: "whisper-kannada-base"@,
                provider: ModelProviderView::HuggingFace,
                model_path: "vasista22/whisper-kannada-base"@,
                language: Some("kn"@),
                priority: 2,
                confidence_threshold: 700000,
                fallback_models: seq!["whisper-large-v3"@],
                parameters: Seq::empty(),
            },
            ModelConfigView {
                id: "whisper-large-v3"@,
                provider: ModelProviderView::WhisperCLI,
                model_path: "large-v3"@,
                language: Some("en"@),
                priority: 1,
                confidence_threshold: 800000,
                fallback_models: seq!["whisper-base"@],
                parameters: Seq::empty(),
            },
            ModelConfigView {
                id: "whisper-base"@,
                provider: ModelProviderView::WhisperCLI,
                model_path: "base"@,
                language: Some("en"@),
                priority: 2,
                confidence_threshold: 700000,
                fallback_models: seq!["whisper-small"@],
                parameters: Seq::empty(),
            },
        ],
        language_mappings: seq![
            LanguageMappingView {
                language: "kn"@,
                model_ids: seq![
                    "whisper-kannada-small"@,
                    "whisper-kannada-base"@,
                    "whisper-large-v3"@,
                ],
            },
            LanguageMappingView {
                language: "en"@,
                model_ids: seq!["whisper-large-v3"@, "whisper-base"@],
            },
        ],
        default_model: "whisper-kannada-small"@,
        confidence_fallback_enabled: true,
        min_confidence_threshold: 600000,
    }
}

impl Default for ModelRegistry {
    /// Builds the default registry.
    fn default() -> (r: ModelRegistry)
        ensures
            r@ == spec_default_registry(),
            r@.wf(),
    {
        let kannada_small = ModelConfig {
            id: "whisper-kannada-small".to_owned(),
            provider: ModelProvider::HuggingFace,
            model_path: "vasista22/whisper-kannada-small".to_owned(),
            language: Some("kn".to_owned()),
            priority: 1,
            confidence_threshold: 750000,
            fallback_models: vec!["whisper-kannada-base".to_owned()],
            parameters: Vec::new(),
        };
        let kannada_base = ModelConfig {
            id: "whisper-kannada-base".to_owned(),
            provider: ModelProvider::HuggingFace,
            model_path: "vasista22/whisper-kannada-base".to_owned(),
            language: Some("kn".to_owned()),
            priority: 2,
            confidence_threshold: 700000,
            fallback_models: vec!["whisper-large-v3".to_owned()],
            parameters: Vec::new(),
        };
        let large_v3 = ModelConfig {
            id: "whisper-large-v3".to_owned(),
            provider: ModelProvider::WhisperCLI,
            model_path: "large-v3".to_owned(),
            language: Some("en".to_owned()),
            priority: 1,
            confidence_threshold: 800000,
            fallback_models: vec!["whisper-base".to_owned()],
            parameters: Vec::new(),
        };
        let base = ModelConfig {
            id: "whisper-base".to_owned(),
            provider: ModelProvider::WhisperCLI,
            model_path: "base".to_owned(),
            language: Some("en".to_owned()),
            priority: 2,
            confidence_threshold: 700000,
            fallback_models: vec!["whisper-small".to_owned()],
            parameters: Vec::new(),
        };
        let kannada_mapping = LanguageMapping {
            language: "kn".to_owned(),
            model_ids: vec![
                "whisper-kannada-small".to_owned(),
                "whisper-kannada-base".to_owned(),
                "whisper-large-v3".to_owned(),
            ],
        };
        let english_mapping = LanguageMapping {
            language: "en".to_owned(),
            model_ids: vec!["whisper-large-v3".to_owned(), "whisper-base".to_owned()],
        };
        let r = ModelRegistry {
            models: vec![kannada_small, kannada_base, large_v3, base],
            language_mappings: vec![kannada_mapping, english_mapping],
            default_model: "whisper-kannada-small".to_owned(),
            confidence_fallback_enabled: true,
            min_confidence_threshold: 600000,
        };
        proof {
            assert(r@ =~~= spec_default_registry());
            reveal_strlit("whisper-kannada-small");
            reveal_strlit("whisper-kannada-base");
            reveal_strlit("whisper-large-v3");
            reveal_strlit("whisper-base");
            reveal_strlit("kn");
            reveal_strlit("en");
            let m = r@.models;
            assert(m[0].id.len() == 21);
            assert(m[1].id.len() == 20);
            assert(m[2].id.len() == 16);
            assert(m[3].id.len() == 12);
            assert forall|i: int, j: int| 0 <= i < j < m.len() implies m[i].id != m[j].id by {
                assert(m[i].id.len() != m[j].id.len());
            }
            assert(r@.language_mappings[0].language[0] == 'k');
            assert(r@.language_mappings[1].language[0] == 'e');
            assert(r@.wf());
        }
        r
    }
}

} // verus!
